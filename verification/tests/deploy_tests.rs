use subdeploy::{
    build_release_id, check_exit_status, default_remote_dir, deploy_step, remote_archive_path,
    render_remote_script, ComposeSpec, DeployAction, DeployError, DeployEvent, DeployRequest,
    DeployStage, HealthCheckError, HealthCheckSpec, PackageError, PackageRequest, RemoteError,
};

fn parts(items: &[&str]) -> Vec<String> {
    items.iter().map(|s| s.to_string()).collect()
}

fn sample_request() -> DeployRequest {
    DeployRequest {
        package_request: PackageRequest {
            project_dir: ".".to_owned(),
            dockerfile: None,
            compose_file: None,
        },
        remote_dir: "/root/demo-deploy".to_owned(),
        ssh_host: "example.com".to_owned(),
        ssh_port: 22,
        ssh_user: "root".to_owned(),
        ssh_password: "secret".to_owned(),
        compose: ComposeSpec {
            dockerfile_rel: parts(&["Dockerfile"]),
            compose_file_rel: parts(&["docker-compose.yml"]),
            service_name: "demo".to_owned(),
            image_tag: "demo:latest".to_owned(),
        },
        no_cache: true,
        health_check: Some(HealthCheckSpec {
            url: "http://127.0.0.1/health".to_owned(),
            timeout_ms: 1000,
            poll_interval_ms: 50,
        }),
    }
}

#[test]
fn default_remote_dir_uses_project_name() {
    assert_eq!(default_remote_dir("demo"), "/root/demo-deploy");
}

#[test]
fn rendered_script_keeps_expected_order() {
    let request = sample_request();
    let script = render_remote_script(&request, "/tmp/demo.tar.gz", "1-2");

    let down_idx = script.find("docker compose -f").unwrap();
    let build_idx = script.find("docker build").unwrap();
    let up_idx = script.rfind("docker compose -f").unwrap();

    assert!(down_idx < build_idx);
    assert!(build_idx < up_idx);
    assert!(script.contains("ln -sfn"));
}

#[test]
fn compose_detection_prefers_docker_compose_yml() {
    let request = DeployRequest {
        package_request: PackageRequest {
            project_dir: "/tmp/project".to_owned(),
            dockerfile: None,
            compose_file: None,
        },
        ..sample_request()
    };

    let script = render_remote_script(&request, "/tmp/demo.tar.gz", "x");
    assert!(script.contains("docker-compose.yml"));
}

/// Runs a deployment the way the command does, with an upload and a remote
/// run that only count their calls.
fn run_deployment(
    request: &DeployRequest,
    uploads: &mut Vec<String>,
    scripts: &mut Vec<String>,
    health: Result<(), HealthCheckError>,
) -> Result<(String, String), DeployError> {
    let mut stage = DeployStage::Start;
    let mut event = DeployEvent::Begin;
    let mut health = Some(health);
    loop {
        let (next, action) = deploy_step(request, stage, event);
        stage = next;
        event = match action {
            DeployAction::BuildPackage => DeployEvent::Packaged {
                outcome: Ok("demo".to_owned()),
                timestamp_secs: 1700000000,
                pid: 42,
            },
            DeployAction::Upload { remote_archive_path } => {
                uploads.push(remote_archive_path);
                DeployEvent::Uploaded(Ok(()))
            }
            DeployAction::RunScript { script } => {
                scripts.push(script);
                DeployEvent::ScriptRan(Ok(()))
            }
            DeployAction::WaitForHealth => DeployEvent::HealthChecked(health.take().unwrap()),
            DeployAction::Finish(result) => {
                return Ok((result.remote_archive_path, result.release_id));
            }
            DeployAction::Abort(error) => return Err(error),
        };
    }
}

#[test]
fn deploy_uploads_archive_and_executes_script() {
    let request = DeployRequest {
        health_check: None,
        ..sample_request()
    };
    let mut uploads = Vec::new();
    let mut scripts = Vec::new();
    let (remote_archive_path, release_id) =
        run_deployment(&request, &mut uploads, &mut scripts, Ok(())).unwrap();

    assert!(remote_archive_path.starts_with("/tmp/"));
    assert_eq!(uploads.len(), 1);
    assert_eq!(scripts.len(), 1);
    assert_eq!(release_id, "1700000000-42");
    assert_eq!(remote_archive_path, "/tmp/demo-1700000000-42.tar.gz");
    assert_eq!(uploads[0], remote_archive_path);
    assert!(scripts[0].contains("REMOTE_ARCHIVE='/tmp/demo-1700000000-42.tar.gz'"));
}

#[test]
fn deploy_waits_for_health_when_asked() {
    let request = sample_request();
    let mut uploads = Vec::new();
    let mut scripts = Vec::new();
    let error = run_deployment(
        &request,
        &mut uploads,
        &mut scripts,
        Err(HealthCheckError::Timeout { last_error: "HTTP 500".to_owned() }),
    )
    .unwrap_err();
    assert!(matches!(
        error,
        DeployError::Health(HealthCheckError::Timeout { ref last_error }) if last_error == "HTTP 500"
    ));
    assert_eq!(scripts.len(), 1);
}

#[test]
fn deploy_stops_when_upload_fails() {
    let request = sample_request();
    let (stage, action) = deploy_step(&request, DeployStage::Start, DeployEvent::Begin);
    assert!(matches!(action, DeployAction::BuildPackage));
    let (stage, action) = deploy_step(
        &request,
        stage,
        DeployEvent::Packaged { outcome: Ok("demo".to_owned()), timestamp_secs: 5, pid: 7 },
    );
    assert!(matches!(action, DeployAction::Upload { .. }));
    let (stage, action) = deploy_step(
        &request,
        stage,
        DeployEvent::Uploaded(Err(RemoteError::Upload("disk full".to_owned()))),
    );
    assert!(matches!(stage, DeployStage::Failed));
    assert!(matches!(
        action,
        DeployAction::Abort(DeployError::Remote(RemoteError::Upload(ref m))) if m == "disk full"
    ));
}

#[test]
fn deploy_reports_packaging_failure() {
    let request = sample_request();
    let (stage, _) = deploy_step(&request, DeployStage::Start, DeployEvent::Begin);
    let (stage, action) = deploy_step(
        &request,
        stage,
        DeployEvent::Packaged {
            outcome: Err(DeployError::Tempfile("no space".to_owned())),
            timestamp_secs: 0,
            pid: 0,
        },
    );
    assert!(matches!(stage, DeployStage::Failed));
    assert!(matches!(action, DeployAction::Abort(DeployError::Tempfile(ref m)) if m == "no space"));
}

#[test]
fn release_id_joins_time_and_process() {
    assert_eq!(build_release_id(1725029869, 4242), "1725029869-4242");
    assert_eq!(build_release_id(0, 0), "0-0");
    assert_eq!(build_release_id(u64::MAX, u32::MAX), "18446744073709551615-4294967295");
}

#[test]
fn remote_archive_path_replaces_slashes() {
    assert_eq!(remote_archive_path("demo", "1-2"), "/tmp/demo-1-2.tar.gz");
    assert_eq!(remote_archive_path("demo", "a/b/c"), "/tmp/demo-a-b-c.tar.gz");
}

#[test]
fn script_quotes_every_value() {
    let mut request = sample_request();
    request.remote_dir = "/srv/it's here".to_owned();
    request.compose.service_name = "web; rm -rf /".to_owned();
    request.no_cache = false;
    let script = render_remote_script(&request, "/tmp/a b.tar.gz", "7-8");
    assert!(script.contains("REMOTE_DIR='/srv/it'\\''s here'\n"));
    assert!(script.contains("RELEASE_DIR='/srv/it'\\''s here/releases/7-8'\n"));
    assert!(script.contains("REMOTE_ARCHIVE='/tmp/a b.tar.gz'\n"));
    assert!(script.contains("docker logs 'web; rm -rf /' --tail 50 || true\n"));
    assert!(script.contains("docker build -t 'demo:latest' -f 'Dockerfile' .\n"));
}

#[test]
fn script_builds_without_cache_when_asked() {
    let script = render_remote_script(&sample_request(), "/tmp/demo.tar.gz", "1-2");
    assert!(script.contains("docker build --no-cache -t 'demo:latest' -f 'Dockerfile' .\n"));
    assert!(script.starts_with("set -euo pipefail\nREMOTE_DIR='/root/demo-deploy'\n"));
    assert!(script.contains("CURRENT_LINK='/root/demo-deploy/current'\n"));
}

#[test]
fn script_clears_old_releases_before_unpacking() {
    let script = render_remote_script(&sample_request(), "/tmp/demo.tar.gz", "1-2");
    let down_idx = script.find(" down ) || true").unwrap();
    let clear_idx = script.find("rm -rf \"$RELEASES_DIR\"").unwrap();
    let unpack_idx = script.find("tar -xzf").unwrap();
    assert!(down_idx < clear_idx);
    assert!(clear_idx < unpack_idx);
}

#[test]
fn exit_status_zero_is_success() {
    assert!(check_exit_status(0).is_ok());
    assert!(matches!(check_exit_status(3), Err(RemoteError::ExitStatus(3))));
    assert!(matches!(check_exit_status(-1), Err(RemoteError::ExitStatus(-1))));
}

#[test]
fn rendered_script_exact_text() {
    let script = render_remote_script(&sample_request(), "/tmp/demo.tar.gz", "1-2");
    let expected = r#"set -euo pipefail
REMOTE_DIR='/root/demo-deploy'
RELEASES_DIR='/root/demo-deploy/releases'
RELEASE_DIR='/root/demo-deploy/releases/1-2'
CURRENT_LINK='/root/demo-deploy/current'
REMOTE_ARCHIVE='/tmp/demo.tar.gz'
mkdir -p "$RELEASES_DIR"

if [ -L "$CURRENT_LINK" ] || [ -d "$CURRENT_LINK" ]; then
  OLD_CURRENT="$(readlink -f "$CURRENT_LINK" || true)"
  if [ -n "${OLD_CURRENT:-}" ] && [ -f "$OLD_CURRENT"/'docker-compose.yml' ]; then
    ( cd "$OLD_CURRENT" && docker compose -f 'docker-compose.yml' down ) || true
  fi
fi

rm -rf "$RELEASES_DIR"
mkdir -p "$RELEASE_DIR"
tar -xzf "$REMOTE_ARCHIVE" -C "$RELEASE_DIR"
rm -f "$REMOTE_ARCHIVE"

ln -sfn "$RELEASE_DIR" "$CURRENT_LINK"
cd "$CURRENT_LINK"

docker build --no-cache -t 'demo:latest' -f 'Dockerfile' .
docker compose -f 'docker-compose.yml' up -d
docker compose -f 'docker-compose.yml' ps
docker logs 'demo' --tail 50 || true
"#;
    assert_eq!(script, expected);
}

#[test]
fn old_release_is_left_from_a_subshell() {
    let script = render_remote_script(&sample_request(), "/tmp/demo.tar.gz", "1-2");
    for line in script.lines() {
        if line.contains("cd \"$OLD_CURRENT\"") {
            assert!(line.trim_start().starts_with("( cd \"$OLD_CURRENT\" && "));
            assert!(line.ends_with(") || true"));
        }
    }
    let top_level_cds: Vec<&str> = script.lines().filter(|l| l.starts_with("cd ")).collect();
    assert_eq!(top_level_cds, vec!["cd \"$CURRENT_LINK\""]);
}

#[test]
fn error_messages() {
    assert_eq!(RemoteError::ExitStatus(2).message(), "远端命令退出码非零: 2");
    assert_eq!(RemoteError::ExitStatus(-1).message(), "远端命令退出码非零: -1");
    assert_eq!(
        RemoteError::ExitStatus(i32::MIN).message(),
        "远端命令退出码非零: -2147483648"
    );
    assert_eq!(RemoteError::CreateSession.message(), "创建 SSH 会话失败");
    assert_eq!(RemoteError::Auth("denied".to_owned()).message(), "SSH 密码认证失败: denied");
    assert_eq!(
        DeployError::Tempfile("no space".to_owned()).message(),
        "生成临时归档失败: no space"
    );
    assert_eq!(
        DeployError::Health(HealthCheckError::Timeout { last_error: "HTTP 500".to_owned() })
            .message(),
        "健康检查超时，最后一次错误: HTTP 500"
    );
    assert_eq!(
        DeployError::Package(PackageError::MissingComposeFile).message(),
        "缺少 compose 文件，支持 docker-compose.yml 或 compose.yml"
    );
    assert_eq!(
        PackageError::RequiredFileIgnored("Dockerfile".to_owned()).message(),
        "部署文件被 .gitignore 规则排除: Dockerfile"
    );
    assert_eq!(PackageError::Io("gone".to_owned()).message(), "IO 错误: gone");
    assert_eq!(
        HealthCheckError::Client("tls".to_owned()).message(),
        "创建 HTTP 客户端失败: tls"
    );
}
