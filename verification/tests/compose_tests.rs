use subdeploy::{
    build_compose_spec, default_image_tag, inspect_project, parse_compose_services,
    resolve_service_name, ComposeError, FileProbe, PackageRequest, ProjectDirProbe,
    ProjectInspection,
    ProjectScan, ServiceNameError, WalkEntry,
};

fn parts(items: &[&str]) -> Vec<String> {
    items.iter().map(|s| s.to_string()).collect()
}

fn inspection() -> ProjectInspection {
    let dir = parts(&["/", "tmp", "demo"]);
    let mut dockerfile = dir.clone();
    dockerfile.push("Dockerfile".to_owned());
    let mut compose = dir.clone();
    compose.push("docker-compose.yml".to_owned());
    let scan = ProjectScan {
        dockerfile: FileProbe { canonical: Some(dockerfile.clone()), is_file: true },
        compose: vec![FileProbe { canonical: Some(compose.clone()), is_file: true }, FileProbe {
            canonical: None,
            is_file: false,
        }],
        walk: Ok(vec![
            WalkEntry { path: dockerfile, is_file: true },
            WalkEntry { path: compose, is_file: true },
        ]),
    };
    let request = PackageRequest {
        project_dir: "/tmp/demo".to_owned(),
        dockerfile: None,
        compose_file: None,
    };
    let probe = ProjectDirProbe { canonical: Some(dir), is_dir: true, name: Some("demo".to_owned()) };
    inspect_project(&request, &probe, &Some(scan)).unwrap()
}

fn listing(text: &str) -> Result<Vec<String>, String> {
    parse_compose_services(text).map_err(|e| e.message())
}

#[test]
fn build_compose_spec_uses_defaults_for_single_service() {
    let inspection = inspection();
    let services = listing("services:\n  web:\n    image: demo:latest\n");

    let compose = build_compose_spec(&inspection, &None, &None, &services).unwrap();
    assert_eq!(compose.service_name, "web");
    assert_eq!(compose.image_tag, format!("{}:latest", inspection.project_name));
}

#[test]
fn build_compose_spec_requires_explicit_service_for_multi_service_compose() {
    let inspection = inspection();
    let services =
        listing("services:\n  api:\n    image: demo:latest\n  worker:\n    image: demo:latest\n");

    let error = build_compose_spec(&inspection, &None, &None, &services).unwrap_err();
    assert!(error.message().contains("包含多个服务: api, worker"));
}

#[test]
fn explicit_service_and_tag_win() {
    let inspection = inspection();
    let compose = build_compose_spec(
        &inspection,
        &Some("app".to_owned()),
        &Some("app:v2".to_owned()),
        &Err("unreadable".to_owned()),
    )
    .unwrap();
    assert_eq!(compose.service_name, "app");
    assert_eq!(compose.image_tag, "app:v2");
    assert_eq!(compose.dockerfile_rel, parts(&["Dockerfile"]));
    assert_eq!(compose.compose_file_rel, parts(&["docker-compose.yml"]));
}

#[test]
fn unreadable_or_empty_compose_asks_for_service() {
    let rel = parts(&["deploy", "compose.yml"]);
    let error = resolve_service_name(&None, &rel, &Err("没有这个文件".to_owned())).unwrap_err();
    assert_eq!(
        error.message(),
        "无法从 Compose 文件 deploy/compose.yml 自动推断服务名: 没有这个文件。请使用 --service 显式指定"
    );
    let error = resolve_service_name(&None, &rel, &Ok(vec![])).unwrap_err();
    assert!(matches!(error, ServiceNameError::NoServices { .. }));
    assert_eq!(
        error.message(),
        "Compose 文件 deploy/compose.yml 未找到服务定义，请使用 --service 显式指定"
    );
    let error =
        resolve_service_name(&None, &rel, &Ok(vec!["a".to_owned(), "b".to_owned()])).unwrap_err();
    assert_eq!(
        error.message(),
        "Compose 文件 deploy/compose.yml 包含多个服务: a, b。请使用 --service 显式指定"
    );
}

#[test]
fn default_image_tag_is_latest() {
    assert_eq!(default_image_tag("demo"), "demo:latest");
}

#[test]
fn compose_services_in_written_order() {
    let text = "version: '3'\nservices:\n  # the API\n  api:\n    image: a\n    ports:\n      - \"80:80\"\n\n  \"worker\":\n    build: .\nvolumes:\n  data:\n";
    assert_eq!(parse_compose_services(text).unwrap(), vec!["api".to_owned(), "worker".to_owned()]);
}

#[test]
fn compose_without_services() {
    assert_eq!(parse_compose_services("services: {}\n").unwrap(), Vec::<String>::new());
    assert_eq!(parse_compose_services("services:\n").unwrap(), Vec::<String>::new());
    assert_eq!(parse_compose_services("version: '3'\n").unwrap(), Vec::<String>::new());
    assert_eq!(parse_compose_services("").unwrap(), Vec::<String>::new());
}

#[test]
fn compose_with_crlf_line_ends() {
    let text = "services:\r\n    web:\r\n      image: x\r\n    db:\r\n";
    assert_eq!(parse_compose_services(text).unwrap(), vec!["web".to_owned(), "db".to_owned()]);
}

#[test]
fn compose_inline_mapping_is_unsupported() {
    assert_eq!(
        parse_compose_services("services: {alt: {}}\n").unwrap_err(),
        ComposeError::UnsupportedServices
    );
}

#[test]
fn compose_malformed_services() {
    assert_eq!(
        parse_compose_services("services:\n    web:\n  db:\n").unwrap_err(),
        ComposeError::MalformedServices
    );
    assert_eq!(
        parse_compose_services("services:\n  - web\n").unwrap_err(),
        ComposeError::MalformedServices
    );
}
