use vstd::prelude::*;
use crate::deploy::DeployRequest;
use crate::paths::path_text;
use crate::shell::{shell_quote, shell_quote_path, shell_quoted};
use crate::text::{decimal, push_char, push_decimal};

verus! {

/// The remote directory used when none is given: `/root/<project_name>-deploy`.
pub open spec fn default_remote_dir_text(project_name: Seq<char>) -> Seq<char> {
    "/root/"@ + project_name + "-deploy"@
}

/// The remote directory used when none is given: `/root/<project_name>-deploy`.
pub fn default_remote_dir(project_name: &str) -> (r: String)
    ensures
        r@ == default_remote_dir_text(project_name@),
{
    let mut r = "/root/".to_owned();
    r.append(project_name);
    r.append("-deploy");
    r
}

/// The default remote directory is `/root/`, the whole project name, then
/// `-deploy`: it starts with `/root/`, ends with `-deploy`, and what lies
/// between is the name itself.
pub proof fn lemma_default_remote_dir_holds_name(project_name: Seq<char>)
    ensures
        ({
            let d = default_remote_dir_text(project_name);
            &&& d.len() == project_name.len() + 13
            &&& d.take(6) == "/root/"@
            &&& d.subrange(6, 6 + project_name.len() as int) == project_name
            &&& d.skip(6 + project_name.len() as int) == "-deploy"@
        }),
{
    reveal_strlit("/root/");
    reveal_strlit("-deploy");
    let d = default_remote_dir_text(project_name);
    assert(d.take(6) =~= "/root/"@);
    assert(d.subrange(6, 6 + project_name.len() as int) =~= project_name);
    assert(d.skip(6 + project_name.len() as int) =~= "-deploy"@);
}

/// Distinct projects get distinct default remote directories.
pub proof fn lemma_default_remote_dir_distinct(a: Seq<char>, b: Seq<char>)
    requires
        a != b,
    ensures
        default_remote_dir_text(a) != default_remote_dir_text(b),
{
    lemma_default_remote_dir_holds_name(a);
    lemma_default_remote_dir_holds_name(b);
}

/// The `docker build` option that turns the layer cache off, when asked.
pub open spec fn no_cache_flag(no_cache: bool) -> Seq<char> {
    if no_cache {
        "--no-cache "@
    } else {
        ""@
    }
}

/// The directory that holds the releases.
pub open spec fn releases_dir_text(remote_dir: Seq<char>) -> Seq<char> {
    remote_dir + "/releases"@
}

/// The directory of one release.
pub open spec fn release_dir_text(remote_dir: Seq<char>, release_id: Seq<char>) -> Seq<char> {
    releases_dir_text(remote_dir) + "/"@ + release_id
}

/// The link to the current release.
pub open spec fn current_link_text(remote_dir: Seq<char>) -> Seq<char> {
    remote_dir + "/current"@
}

/// The test that the current release has the compose file: the old
/// release's directory, expanded inside double quotes, then `/`, then the
/// compose file single-quoted on its own, so that the shell reads the
/// file's path exactly (see `lemma_shell_quote_reads_back`).
pub open spec fn old_release_guard(compose_file: Seq<char>) -> Seq<char> {
    "[ -f \"$OLD_CURRENT\"/"@ + shell_quoted(compose_file) + " ]"@
}

/// What follows the guard: the stop command, when it holds.
pub open spec fn then_text() -> Seq<char> {
    "; then\n    "@
}

/// The command that stops the services of the current release: in a
/// subshell, so that the `cd` into the old release does not change the
/// directory the rest of the script runs in, and with a failure ignored.
pub open spec fn stop_old_services(compose_file: Seq<char>) -> Seq<char> {
    "( cd \"$OLD_CURRENT\" && docker compose -f "@ + shell_quoted(compose_file) + " down ) || true"@
}

/// The command that removes the old releases.
pub open spec fn clear_old_releases() -> Seq<char> {
    "rm -rf \"$RELEASES_DIR\""@
}

/// The command that builds the image.
pub open spec fn build_image(no_cache: bool, image_tag: Seq<char>, dockerfile: Seq<char>) -> Seq<char> {
    "docker build "@ + no_cache_flag(no_cache) + "-t "@ + shell_quoted(image_tag) + " -f "@
        + shell_quoted(dockerfile) + " ."@
}

/// The command that starts the services of the new release.
pub open spec fn start_services(compose_file: Seq<char>) -> Seq<char> {
    "docker compose -f "@ + shell_quoted(compose_file) + " up -d"@
}

/// The shell script run on the remote host: it stops the services of the
/// current release, if any, removes the old releases, unpacks the uploaded
/// archive into the new release directory, points `current` at it, builds
/// the image and starts the services. Every value in it is single-quoted.
pub open spec fn remote_script_text(
    remote_dir: Seq<char>,
    remote_archive: Seq<char>,
    release_id: Seq<char>,
    dockerfile: Seq<char>,
    compose_file: Seq<char>,
    image_tag: Seq<char>,
    service_name: Seq<char>,
    no_cache: bool,
) -> Seq<char> {
    let releases_dir = releases_dir_text(remote_dir);
    let release_dir = release_dir_text(remote_dir, release_id);
    let current_link = current_link_text(remote_dir);
    "set -euo pipefail\nREMOTE_DIR="@ + shell_quoted(remote_dir) + "\nRELEASES_DIR="@
        + shell_quoted(releases_dir) + "\nRELEASE_DIR="@ + shell_quoted(release_dir)
        + "\nCURRENT_LINK="@ + shell_quoted(current_link) + "\nREMOTE_ARCHIVE="@
        + shell_quoted(remote_archive)
        + "\nmkdir -p \"$RELEASES_DIR\"\n\nif [ -L \"$CURRENT_LINK\" ] || [ -d \"$CURRENT_LINK\" ]; then\n  OLD_CURRENT=\"$(readlink -f \"$CURRENT_LINK\" || true)\"\n  if [ -n \"${OLD_CURRENT:-}\" ] && "@
        + old_release_guard(compose_file) + then_text() + stop_old_services(compose_file)
        + "\n  fi\nfi\n\n"@ + clear_old_releases()
        + "\nmkdir -p \"$RELEASE_DIR\"\ntar -xzf \"$REMOTE_ARCHIVE\" -C \"$RELEASE_DIR\"\nrm -f \"$REMOTE_ARCHIVE\"\n\nln -sfn \"$RELEASE_DIR\" \"$CURRENT_LINK\"\ncd \"$CURRENT_LINK\"\n\n"@
        + build_image(no_cache, image_tag, dockerfile) + "\n"@ + start_services(compose_file)
        + "\ndocker compose -f "@ + shell_quoted(compose_file) + " ps\ndocker logs "@
        + shell_quoted(service_name) + " --tail 50 || true\n"@
}

/// The script for a deployment request, an uploaded archive and a release.
pub open spec fn request_script(request: DeployRequest, remote_archive: Seq<char>, release_id: Seq<char>) -> Seq<char> {
    remote_script_text(
        request.remote_dir@,
        remote_archive,
        release_id,
        path_text(request.compose.dockerfile_rel.deep_view()),
        path_text(request.compose.compose_file_rel.deep_view()),
        request.compose.image_tag@,
        request.compose.service_name@,
        request.no_cache,
    )
}

/// Writes the remote deployment script (`render_remote_script`).
#[verifier::rlimit(60)]
pub fn render_remote_script(request: &DeployRequest, remote_archive_path: &str, release_id: &str) -> (r: String)
    ensures
        r@ == request_script(*request, remote_archive_path@, release_id@),
{
    let mut releases_dir = request.remote_dir.clone();
    releases_dir.append("/releases");
    let mut release_dir = releases_dir.clone();
    release_dir.append("/");
    release_dir.append(release_id);
    let mut current_link = request.remote_dir.clone();
    current_link.append("/current");
    let flag = if request.no_cache { "--no-cache ".to_owned() } else { String::new() };
    proof {
        reveal_strlit("");
    }
    let remote_dir_q = shell_quote(request.remote_dir.as_str());
    let releases_dir_q = shell_quote(releases_dir.as_str());
    let release_dir_q = shell_quote(release_dir.as_str());
    let current_link_q = shell_quote(current_link.as_str());
    let remote_archive_q = shell_quote(remote_archive_path);
    let dockerfile_q = shell_quote_path(&request.compose.dockerfile_rel);
    let compose_file_q = shell_quote_path(&request.compose.compose_file_rel);
    let image_tag_q = shell_quote(request.compose.image_tag.as_str());
    let service_name_q = shell_quote(request.compose.service_name.as_str());
    let mut script = String::new();
    script.append("set -euo pipefail\nREMOTE_DIR=");
    script.append(remote_dir_q.as_str());
    script.append("\nRELEASES_DIR=");
    script.append(releases_dir_q.as_str());
    script.append("\nRELEASE_DIR=");
    script.append(release_dir_q.as_str());
    script.append("\nCURRENT_LINK=");
    script.append(current_link_q.as_str());
    script.append("\nREMOTE_ARCHIVE=");
    script.append(remote_archive_q.as_str());
    script.append("\nmkdir -p \"$RELEASES_DIR\"\n\nif [ -L \"$CURRENT_LINK\" ] || [ -d \"$CURRENT_LINK\" ]; then\n  OLD_CURRENT=\"$(readlink -f \"$CURRENT_LINK\" || true)\"\n  if [ -n \"${OLD_CURRENT:-}\" ] && ");
    script.append("[ -f \"$OLD_CURRENT\"/");
    script.append(compose_file_q.as_str());
    script.append(" ]");
    script.append("; then\n    ");
    script.append("( cd \"$OLD_CURRENT\" && docker compose -f ");
    script.append(compose_file_q.as_str());
    script.append(" down ) || true");
    script.append("\n  fi\nfi\n\n");
    script.append("rm -rf \"$RELEASES_DIR\"");
    script.append("\nmkdir -p \"$RELEASE_DIR\"\ntar -xzf \"$REMOTE_ARCHIVE\" -C \"$RELEASE_DIR\"\nrm -f \"$REMOTE_ARCHIVE\"\n\nln -sfn \"$RELEASE_DIR\" \"$CURRENT_LINK\"\ncd \"$CURRENT_LINK\"\n\n");
    script.append("docker build ");
    script.append(flag.as_str());
    script.append("-t ");
    script.append(image_tag_q.as_str());
    script.append(" -f ");
    script.append(dockerfile_q.as_str());
    script.append(" .");
    script.append("\n");
    script.append("docker compose -f ");
    script.append(compose_file_q.as_str());
    script.append(" up -d");
    script.append("\ndocker compose -f ");
    script.append(compose_file_q.as_str());
    script.append(" ps\ndocker logs ");
    script.append(service_name_q.as_str());
    script.append(" --tail 50 || true\n");
    assert(script@ =~= request_script(*request, remote_archive_path@, release_id@));
    script
}

/// When the current release holds the compose file (tested on the compose
/// file's own path, read back exactly from its quoted form), the script
/// stops that release's services from within it, in a subshell; after that
/// it removes the old releases, then builds the new image, then starts the
/// new services.
pub proof fn lemma_script_stops_clears_builds_starts(
    remote_dir: Seq<char>,
    remote_archive: Seq<char>,
    release_id: Seq<char>,
    dockerfile: Seq<char>,
    compose_file: Seq<char>,
    image_tag: Seq<char>,
    service_name: Seq<char>,
    no_cache: bool,
)
    ensures
        exists|a: Seq<char>, b: Seq<char>, c: Seq<char>, d: Seq<char>, e: Seq<char>|
            #[trigger] remote_script_text(
                remote_dir,
                remote_archive,
                release_id,
                dockerfile,
                compose_file,
                image_tag,
                service_name,
                no_cache,
            ) == a + old_release_guard(compose_file) + then_text() + stop_old_services(
                compose_file,
            ) + b + clear_old_releases() + c + build_image(
                no_cache,
                image_tag,
                dockerfile,
            ) + d + start_services(compose_file) + e,
{
    let script = remote_script_text(
        remote_dir,
        remote_archive,
        release_id,
        dockerfile,
        compose_file,
        image_tag,
        service_name,
        no_cache,
    );
    let a = "set -euo pipefail\nREMOTE_DIR="@ + shell_quoted(remote_dir) + "\nRELEASES_DIR="@
        + shell_quoted(releases_dir_text(remote_dir)) + "\nRELEASE_DIR="@ + shell_quoted(
        release_dir_text(remote_dir, release_id),
    ) + "\nCURRENT_LINK="@ + shell_quoted(current_link_text(remote_dir)) + "\nREMOTE_ARCHIVE="@
        + shell_quoted(remote_archive) + "\nmkdir -p \"$RELEASES_DIR\"\n\nif [ -L \"$CURRENT_LINK\" ] || [ -d \"$CURRENT_LINK\" ]; then\n  OLD_CURRENT=\"$(readlink -f \"$CURRENT_LINK\" || true)\"\n  if [ -n \"${OLD_CURRENT:-}\" ] && "@;
    let b = "\n  fi\nfi\n\n"@;
    let c = "\nmkdir -p \"$RELEASE_DIR\"\ntar -xzf \"$REMOTE_ARCHIVE\" -C \"$RELEASE_DIR\"\nrm -f \"$REMOTE_ARCHIVE\"\n\nln -sfn \"$RELEASE_DIR\" \"$CURRENT_LINK\"\ncd \"$CURRENT_LINK\"\n\n"@;
    let d = "\n"@;
    let e = "\ndocker compose -f "@ + shell_quoted(compose_file) + " ps\ndocker logs "@
        + shell_quoted(service_name) + " --tail 50 || true\n"@;
    assert(script =~= a + old_release_guard(compose_file) + then_text()
        + stop_old_services(compose_file) + b + clear_old_releases() + c
        + build_image(no_cache, image_tag, dockerfile) + d + start_services(compose_file) + e);
}

/// The script names exactly what the request asks for: it starts by
/// setting the remote directory given; it builds the image with the tag
/// given, without the layer cache when asked, from the Dockerfile at its
/// full path relative to the project (all components, joined by `/`); and it
/// starts the services of the compose file at its full relative path, right
/// after the build; and it logs the service named. Every value is
/// single-quoted.
pub proof fn lemma_script_uses_request_values(
    request: DeployRequest,
    remote_archive: Seq<char>,
    release_id: Seq<char>,
)
    ensures
        request_script(request, remote_archive, release_id).take(
            ("set -euo pipefail\nREMOTE_DIR="@ + shell_quoted(request.remote_dir@) + "\n"@).len() as int,
        ) == "set -euo pipefail\nREMOTE_DIR="@ + shell_quoted(request.remote_dir@) + "\n"@,
        request.no_cache ==> exists|a: Seq<char>, b: Seq<char>|
            #[trigger] (a + ("docker build --no-cache -t "@ + shell_quoted(request.compose.image_tag@) + " -f "@
                + shell_quoted(path_text(request.compose.dockerfile_rel.deep_view()))
                + " .\ndocker compose -f "@ + shell_quoted(
                path_text(request.compose.compose_file_rel.deep_view()),
            ) + " up -d\n"@) + b) == request_script(request, remote_archive, release_id),
        !request.no_cache ==> exists|a: Seq<char>, b: Seq<char>|
            #[trigger] (a + ("docker build -t "@ + shell_quoted(request.compose.image_tag@) + " -f "@
                + shell_quoted(path_text(request.compose.dockerfile_rel.deep_view()))
                + " .\ndocker compose -f "@ + shell_quoted(
                path_text(request.compose.compose_file_rel.deep_view()),
            ) + " up -d\n"@) + b) == request_script(request, remote_archive, release_id),
        request_script(request, remote_archive, release_id).len() >= ("docker logs "@
            + shell_quoted(request.compose.service_name@) + " --tail 50 || true\n"@).len(),
        request_script(request, remote_archive, release_id).skip(
            request_script(request, remote_archive, release_id).len() - ("docker logs "@
                + shell_quoted(request.compose.service_name@) + " --tail 50 || true\n"@).len(),
        ) == "docker logs "@ + shell_quoted(request.compose.service_name@) + " --tail 50 || true\n"@,
{
    let dockerfile = path_text(request.compose.dockerfile_rel.deep_view());
    let compose_file = path_text(request.compose.compose_file_rel.deep_view());
    let remote_dir = request.remote_dir@;
    let image_tag = request.compose.image_tag@;
    let service_name = request.compose.service_name@;
    let no_cache = request.no_cache;
    let script = request_script(request, remote_archive, release_id);
    let opening = "set -euo pipefail\nREMOTE_DIR="@ + shell_quoted(remote_dir) + "\n"@;
    let flag = if no_cache {
        "--no-cache "@
    } else {
        ""@
    };
    let build_and_start = "docker build "@ + flag + "-t "@ + shell_quoted(image_tag) + " -f "@
        + shell_quoted(dockerfile) + " .\ndocker compose -f "@ + shell_quoted(compose_file)
        + " up -d\n"@;
    let logs = "docker logs "@ + shell_quoted(service_name) + " --tail 50 || true\n"@;
    reveal_strlit("set -euo pipefail\nREMOTE_DIR=");
    reveal_strlit("\nRELEASES_DIR=");
    reveal_strlit("\n");
    reveal_strlit(" .");
    reveal_strlit(" .\ndocker compose -f ");
    reveal_strlit("docker compose -f ");
    reveal_strlit(" up -d");
    reveal_strlit(" up -d\n");
    reveal_strlit("\ndocker compose -f ");
    reveal_strlit(" ps\ndocker logs ");
    reveal_strlit("docker logs ");
    reveal_strlit(" --tail 50 || true\n");
    let a = "set -euo pipefail\nREMOTE_DIR="@ + shell_quoted(remote_dir) + "\nRELEASES_DIR="@
        + shell_quoted(releases_dir_text(remote_dir)) + "\nRELEASE_DIR="@ + shell_quoted(
        release_dir_text(remote_dir, release_id),
    ) + "\nCURRENT_LINK="@ + shell_quoted(current_link_text(remote_dir)) + "\nREMOTE_ARCHIVE="@
        + shell_quoted(remote_archive)
        + "\nmkdir -p \"$RELEASES_DIR\"\n\nif [ -L \"$CURRENT_LINK\" ] || [ -d \"$CURRENT_LINK\" ]; then\n  OLD_CURRENT=\"$(readlink -f \"$CURRENT_LINK\" || true)\"\n  if [ -n \"${OLD_CURRENT:-}\" ] && "@
        + old_release_guard(compose_file) + then_text() + stop_old_services(compose_file)
        + "\n  fi\nfi\n\n"@ + clear_old_releases()
        + "\nmkdir -p \"$RELEASE_DIR\"\ntar -xzf \"$REMOTE_ARCHIVE\" -C \"$RELEASE_DIR\"\nrm -f \"$REMOTE_ARCHIVE\"\n\nln -sfn \"$RELEASE_DIR\" \"$CURRENT_LINK\"\ncd \"$CURRENT_LINK\"\n\n"@;
    let b = "docker compose -f "@ + shell_quoted(compose_file) + " ps\n"@ + logs;
    assert(" .\ndocker compose -f "@ =~= " ."@ + "\n"@ + "docker compose -f "@);
    assert(" up -d\n"@ =~= " up -d"@ + "\ndocker compose -f "@.take(1));
    assert("\ndocker compose -f "@ =~= "\n"@ + "docker compose -f "@);
    assert(" ps\ndocker logs "@ =~= " ps\n"@ + "docker logs "@) by {
        reveal_strlit(" ps\n");
    }
    assert(script =~= a + build_and_start + b);
    assert(script.take(opening.len() as int) =~= opening);
    assert(script.skip(script.len() - logs.len()) =~= logs);
    reveal_strlit("docker build ");
    reveal_strlit("docker build --no-cache -t ");
    reveal_strlit("docker build -t ");
    reveal_strlit("--no-cache ");
    reveal_strlit("");
    reveal_strlit("-t ");
    if no_cache {
        let head = "docker build --no-cache -t "@ + shell_quoted(image_tag) + " -f "@
            + shell_quoted(dockerfile) + " .\ndocker compose -f "@ + shell_quoted(compose_file)
            + " up -d\n"@;
        assert(head =~= build_and_start);
        assert((a + head + b) == script);
    } else {
        let head = "docker build -t "@ + shell_quoted(image_tag) + " -f "@ + shell_quoted(
            dockerfile,
        ) + " .\ndocker compose -f "@ + shell_quoted(compose_file) + " up -d\n"@;
        assert(head =~= build_and_start);
        assert((a + head + b) == script);
    }
}

/// A release id with its slashes made dashes.
pub open spec fn without_slashes(s: Seq<char>) -> Seq<char> {
    s.map_values(|c: char| if c == '/' { '-' } else { c })
}

/// Where the archive is uploaded: `/tmp/<project_name>-<release_id>.tar.gz`,
/// with the slashes of the release id made dashes.
pub open spec fn remote_archive_text(project_name: Seq<char>, release_id: Seq<char>) -> Seq<char> {
    "/tmp/"@ + project_name + "-"@ + without_slashes(release_id) + ".tar.gz"@
}

/// Where the archive is uploaded on the remote host.
pub fn remote_archive_path(project_name: &str, release_id: &str) -> (r: String)
    ensures
        r@ == remote_archive_text(project_name@, release_id@),
{
    let mut r = "/tmp/".to_owned();
    r.append(project_name);
    r.append("-");
    let ghost lead = r@;
    let id = crate::text::chars_of(release_id);
    for i in 0..id.len()
        invariant
            id@ == release_id@,
            r@ == lead + without_slashes(id@.take(i as int)),
    {
        let c = id[i];
        if c == '/' {
            push_char(&mut r, '-');
        } else {
            push_char(&mut r, c);
        }
        assert(without_slashes(id@.take(i + 1)) =~= without_slashes(id@.take(i as int)).push(
            if c == '/' { '-' } else { c },
        ));
    }
    assert(id@.take(id.len() as int) =~= release_id@);
    r.append(".tar.gz");
    r
}

/// A release id: the deployment time in seconds since the Unix epoch and
/// the id of the deploying process, `<seconds>-<pid>`.
pub open spec fn release_id_text(timestamp_secs: u64, pid: u32) -> Seq<char> {
    decimal(timestamp_secs as nat) + "-"@ + decimal(pid as nat)
}

/// A release id (`build_release_id`, from the clock reading and process id).
pub fn build_release_id(timestamp_secs: u64, pid: u32) -> (r: String)
    ensures
        r@ == release_id_text(timestamp_secs, pid),
{
    let mut r = String::new();
    push_decimal(&mut r, timestamp_secs);
    r.append("-");
    push_decimal(&mut r, pid as u64);
    assert(r@ =~= release_id_text(timestamp_secs, pid));
    r
}

} // verus!
