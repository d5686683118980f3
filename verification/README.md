# subdeploy

`sd` deploys a single-service Docker project to a remote host over SSH: it
checks that the project has a Dockerfile and a compose file, packs the files
that `.gitignore` does not exclude into a `tar.gz`, uploads it, unpacks it into
a fresh release on the remote host, builds the image, starts the services and
optionally polls a health URL.

Layout:

- `src/` — the library, verified with Verus. It decides which of the files
  that the directory walk reports go into the archive (regular files inside
  the project, nothing under `.git`, not the archive itself, in path order),
  where the Dockerfile and compose file are and that they are archived, which
  service to deploy, the remote script, the order of the deployment steps and
  when the service counts as healthy. Paths are held as their components; the
  file system, the network and the clock are read by the caller, which hands
  their answers in.
- `app/` — the `sd` command: argument parsing, the directory walk (which
  applies the `.gitignore` rules, through the `ignore` crate), archive
  writing, SSH and SFTP, HTTP health requests, and the loops that carry out
  what the library decides.
- `tests/` — tests of the library.
