use subdeploy::{
    check_project_dir, collect_files, compose_candidates, dockerfile_candidate, inspect_project,
    join_path, path_relative_to, path_to_text, plan_package, strip_prefix, FileProbe,
    PackageError, PackageRequest, ProjectDirProbe, ProjectScan, WalkEntry,
};

fn parts(items: &[&str]) -> Vec<String> {
    items.iter().map(|s| s.to_string()).collect()
}

fn dir() -> Vec<String> {
    parts(&["/", "tmp", "demo"])
}

fn file(name: &[&str]) -> WalkEntry {
    let mut path = dir();
    path.extend(name.iter().map(|s| s.to_string()));
    WalkEntry { path, is_file: true }
}

fn folder(name: &[&str]) -> WalkEntry {
    let mut path = dir();
    path.extend(name.iter().map(|s| s.to_string()));
    WalkEntry { path, is_file: false }
}

fn found(rel: &[&str]) -> FileProbe {
    let mut canonical = dir();
    canonical.extend(rel.iter().map(|s| s.to_string()));
    FileProbe { canonical: Some(canonical), is_file: true }
}

fn missing() -> FileProbe {
    FileProbe { canonical: None, is_file: false }
}

fn dir_probe() -> ProjectDirProbe {
    ProjectDirProbe { canonical: Some(dir()), is_dir: true, name: Some("demo".to_owned()) }
}

fn request() -> PackageRequest {
    PackageRequest { project_dir: "/tmp/demo".to_owned(), dockerfile: None, compose_file: None }
}

fn scan(entries: Vec<WalkEntry>) -> ProjectScan {
    ProjectScan {
        dockerfile: found(&["Dockerfile"]),
        compose: vec![found(&["docker-compose.yml"]), missing()],
        walk: Ok(entries),
    }
}

fn includes(files: &[Vec<String>], rel: &[&str]) -> bool {
    files.iter().any(|f| *f == parts(rel))
}

#[test]
fn inspect_project_respects_gitignore() {
    // The walk applies `.gitignore`: `ignored.txt` is not among its entries.
    let entries = vec![
        folder(&[]),
        file(&[".gitignore"]),
        file(&["Dockerfile"]),
        file(&["docker-compose.yml"]),
        file(&["kept.txt"]),
    ];
    let inspection = inspect_project(&request(), &dir_probe(), &Some(scan(entries))).unwrap();

    assert!(includes(&inspection.included_files, &["kept.txt"]));
    assert!(!includes(&inspection.included_files, &["ignored.txt"]));
}

#[test]
fn inspect_project_keeps_dot_files() {
    let entries = vec![
        file(&["Dockerfile"]),
        file(&["docker-compose.yml"]),
        file(&[".env.example"]),
    ];
    let inspection = inspect_project(&request(), &dir_probe(), &Some(scan(entries))).unwrap();

    assert!(includes(&inspection.included_files, &[".env.example"]));
}

#[test]
fn inspect_project_requires_dockerfile() {
    let entries = vec![file(&["docker-compose.yml"])];
    let mut s = scan(entries);
    s.dockerfile = missing();
    let error = inspect_project(&request(), &dir_probe(), &Some(s)).unwrap_err();

    assert!(matches!(error, PackageError::MissingRequiredFile(_)));
}

#[test]
fn inspect_project_requires_compose_file() {
    let entries = vec![file(&["Dockerfile"])];
    let mut s = scan(entries);
    s.compose = vec![missing(), missing()];
    let error = inspect_project(&request(), &dir_probe(), &Some(s)).unwrap_err();

    assert!(matches!(error, PackageError::MissingComposeFile));
}

#[test]
fn package_project_excludes_existing_output_file_inside_project() {
    let entries = vec![
        file(&["Dockerfile"]),
        file(&["docker-compose.yml"]),
        file(&["app.txt"]),
        file(&["bundle.tar.gz"]),
    ];
    let inspection = inspect_project(&request(), &dir_probe(), &Some(scan(entries))).unwrap();
    let mut output = dir();
    output.push("bundle.tar.gz".to_owned());

    let package =
        plan_package(inspection, &output, &"/tmp/demo/./bundle.tar.gz".to_owned(), &Ok(vec![])).unwrap();

    assert!(!includes(&package.included_files, &["bundle.tar.gz"]));
    assert_eq!(package.archive_path, "/tmp/demo/./bundle.tar.gz");
    assert_eq!(package.included_files.len(), 3);
}

#[test]
fn inspection_fields_follow_the_project() {
    let entries = vec![
        file(&["src", "main.rs"]),
        file(&["docker-compose.yml"]),
        file(&["Dockerfile"]),
        file(&["README.md"]),
        folder(&["src"]),
    ];
    let inspection = inspect_project(&request(), &dir_probe(), &Some(scan(entries))).unwrap();
    assert_eq!(inspection.project_name, "demo");
    assert_eq!(inspection.dockerfile_rel, parts(&["Dockerfile"]));
    assert_eq!(inspection.compose_file_rel, parts(&["docker-compose.yml"]));
    assert_eq!(
        inspection.included_files,
        vec![
            parts(&["Dockerfile"]),
            parts(&["README.md"]),
            parts(&["docker-compose.yml"]),
            parts(&["src", "main.rs"]),
        ]
    );
}

#[test]
fn collect_files_skips_git_and_sorts_by_component() {
    let entries = vec![
        file(&["a.b"]),
        file(&[".git", "HEAD"]),
        file(&["a", "b"]),
        file(&["a.b"]),
        folder(&["a"]),
        WalkEntry { path: parts(&["/", "elsewhere", "x"]), is_file: true },
        WalkEntry { path: dir(), is_file: false },
    ];
    let files = collect_files(&dir(), &Ok(entries)).unwrap();
    assert_eq!(files, vec![parts(&["a", "b"]), parts(&["a.b"])]);
}

#[test]
fn collect_files_reports_empty_and_walk_errors() {
    let empty = collect_files(&dir(), &Ok(vec![folder(&["x"])]));
    assert!(matches!(empty, Err(PackageError::EmptyPackage)));
    let failed = collect_files(&dir(), &Err("permission denied".to_owned()));
    assert!(matches!(failed, Err(PackageError::Ignore(ref m)) if m == "permission denied"));
}

#[test]
fn required_file_ignored_is_reported() {
    let entries = vec![file(&["Dockerfile"]), file(&["app.txt"])];
    let error = inspect_project(&request(), &dir_probe(), &Some(scan(entries))).unwrap_err();
    assert!(matches!(error, PackageError::RequiredFileIgnored(ref p) if p == "docker-compose.yml"));
}

#[test]
fn required_file_outside_project_is_reported() {
    let mut s = scan(vec![file(&["Dockerfile"])]);
    s.dockerfile = FileProbe { canonical: Some(parts(&["/", "etc", "Dockerfile"])), is_file: true };
    let error = inspect_project(&request(), &dir_probe(), &Some(s)).unwrap_err();
    assert!(matches!(error, PackageError::PathOutsideProject(ref p) if p == "/etc/Dockerfile"));
}

#[test]
fn explicit_compose_file_must_exist() {
    let mut req = request();
    req.compose_file = Some("deploy/compose.yml".to_owned());
    assert_eq!(compose_candidates(&req), vec!["deploy/compose.yml".to_owned()]);
    let mut s = scan(vec![file(&["Dockerfile"])]);
    s.compose = vec![FileProbe { canonical: Some(parts(&["/", "tmp", "demo", "deploy"])), is_file: false }];
    let error = inspect_project(&req, &dir_probe(), &Some(s)).unwrap_err();
    assert!(matches!(error, PackageError::MissingRequiredFile(ref p) if p == "deploy/compose.yml"));
}

#[test]
fn compose_candidates_prefer_docker_compose_yml() {
    assert_eq!(
        compose_candidates(&request()),
        vec!["docker-compose.yml".to_owned(), "compose.yml".to_owned()]
    );
    let entries = || vec![file(&["Dockerfile"]), file(&["compose.yml"]), file(&["docker-compose.yml"])];
    let mut s = scan(entries());
    s.compose = vec![found(&["docker-compose.yml"]), found(&["compose.yml"])];
    let inspection = inspect_project(&request(), &dir_probe(), &Some(s)).unwrap();
    assert_eq!(inspection.compose_file_rel, parts(&["docker-compose.yml"]));
    let mut s = scan(entries());
    s.compose = vec![missing(), found(&["compose.yml"])];
    let inspection = inspect_project(&request(), &dir_probe(), &Some(s)).unwrap();
    assert_eq!(inspection.compose_file_rel, parts(&["compose.yml"]));
}

#[test]
fn dockerfile_candidate_defaults() {
    assert_eq!(dockerfile_candidate(&request()), "Dockerfile");
    let mut req = request();
    req.dockerfile = Some("deploy/Dockerfile".to_owned());
    assert_eq!(dockerfile_candidate(&req), "deploy/Dockerfile");
}

#[test]
fn project_dir_must_be_a_directory() {
    let req = request();
    assert!(matches!(
        check_project_dir(&req, &None, false),
        Err(PackageError::InvalidProjectDir(ref p)) if p == "/tmp/demo"
    ));
    assert!(matches!(
        check_project_dir(&req, &Some(parts(&["/", "tmp", "file.txt"])), false),
        Err(PackageError::InvalidProjectDir(ref p)) if p == "/tmp/file.txt"
    ));
    assert_eq!(check_project_dir(&req, &Some(dir()), true).unwrap(), dir());
}

#[test]
fn project_dir_problems_come_first() {
    let missing_dir = ProjectDirProbe { canonical: None, is_dir: false, name: None };
    let error = inspect_project(&request(), &missing_dir, &None).unwrap_err();
    assert!(matches!(error, PackageError::InvalidProjectDir(ref p) if p == "/tmp/demo"));
    let not_dir = ProjectDirProbe {
        canonical: Some(parts(&["/", "tmp", "demo.txt"])),
        is_dir: false,
        name: Some("demo.txt".to_owned()),
    };
    let error = inspect_project(&request(), &not_dir, &None).unwrap_err();
    assert!(matches!(error, PackageError::InvalidProjectDir(ref p) if p == "/tmp/demo.txt"));
}

#[test]
fn root_directory_project_is_named_project() {
    let root = parts(&["/"]);
    let entries = vec![
        WalkEntry { path: parts(&["/", "Dockerfile"]), is_file: true },
        WalkEntry { path: parts(&["/", "compose.yml"]), is_file: true },
    ];
    let s = ProjectScan {
        dockerfile: FileProbe { canonical: Some(parts(&["/", "Dockerfile"])), is_file: true },
        compose: vec![missing(), FileProbe { canonical: None, is_file: true }],
        walk: Ok(entries),
    };
    let probe = ProjectDirProbe { canonical: Some(root), is_dir: true, name: None };
    let inspection = inspect_project(&request(), &probe, &Some(s)).unwrap();
    assert_eq!(inspection.project_name, "project");
}

#[test]
fn output_outside_project_keeps_every_file() {
    let entries = vec![file(&["Dockerfile"]), file(&["docker-compose.yml"])];
    let inspection = inspect_project(&request(), &dir_probe(), &Some(scan(entries))).unwrap();
    let package = plan_package(
        inspection,
        &parts(&["out.tar.gz"]),
        &"out.tar.gz".to_owned(),
        &Ok(parts(&["/", "home"])),
    )
    .unwrap();
    assert_eq!(package.included_files.len(), 2);
    assert_eq!(package.archive_path, "out.tar.gz");
}

#[test]
fn relative_output_is_taken_from_current_directory() {
    let rel = path_relative_to(&parts(&[".", "x.tgz"]), &Ok(dir()), &dir()).unwrap();
    assert_eq!(rel, Some(parts(&["x.tgz"])));
    let err = path_relative_to(&parts(&["x.tgz"]), &Err("gone".to_owned()), &dir());
    assert!(matches!(err, Err(PackageError::Io(ref m)) if m == "gone"));
    let abs = path_relative_to(&parts(&["/", "tmp", "x.tgz"]), &Err("gone".to_owned()), &dir()).unwrap();
    assert_eq!(abs, None);
}

#[test]
fn packaging_only_the_archive_is_empty() {
    let entries = vec![file(&["Dockerfile"])];
    let mut s = scan(entries);
    let mut req = request();
    req.compose_file = Some("Dockerfile".to_owned());
    s.compose = vec![found(&["Dockerfile"])];
    let inspection = inspect_project(&req, &dir_probe(), &Some(s)).unwrap();
    let mut output = dir();
    output.push("Dockerfile".to_owned());
    let result = plan_package(inspection, &output, &"/tmp/demo/Dockerfile".to_owned(), &Ok(vec![]));
    assert!(matches!(result, Err(PackageError::EmptyPackage)));
}

#[test]
fn path_helpers_follow_path_rules() {
    assert_eq!(path_to_text(&parts(&["/", "a", "b"])), "/a/b");
    assert_eq!(path_to_text(&parts(&["a", "b"])), "a/b");
    assert_eq!(path_to_text(&parts(&["/"])), "/");
    assert_eq!(path_to_text(&parts(&[])), "");
    assert_eq!(strip_prefix(&parts(&["/", "a", "b"]), &parts(&["/", "a"])), Some(parts(&["b"])));
    assert_eq!(strip_prefix(&parts(&["/", "ab"]), &parts(&["/", "a"])), None);
    assert_eq!(join_path(&parts(&["/", "a"]), &parts(&["/", "b"])), parts(&["/", "b"]));
    assert_eq!(join_path(&parts(&["/", "a"]), &parts(&[".", "b"])), parts(&["/", "a", "b"]));
    assert_eq!(join_path(&parts(&["/", "a"]), &parts(&["..", "b"])), parts(&["/", "a", "..", "b"]));
}

#[test]
fn file_list_does_not_depend_on_walk_order() {
    let forward = vec![file(&["b"]), file(&["a", "z"]), file(&["a", "y"]), file(&["c"])];
    let mut backward = forward.clone();
    backward.reverse();
    let one = collect_files(&dir(), &Ok(forward)).unwrap();
    let two = collect_files(&dir(), &Ok(backward)).unwrap();
    assert_eq!(one, two);
    assert_eq!(one, vec![parts(&["a", "y"]), parts(&["a", "z"]), parts(&["b"]), parts(&["c"])]);
}
