use vstd::prelude::*;
use crate::compose::ComposeSpec;
use crate::health::{health_error_text, HealthCheckError, HealthCheckSpec};
use crate::text::{prefixed, push_signed_decimal, signed_decimal};
use crate::packager::{package_error_text, PackageError, PackageRequest};
use crate::script::{
    build_release_id, release_id_text, remote_archive_path, remote_archive_text,
    render_remote_script, request_script,
};

verus! {

/// Everything a deployment needs: the project, the remote directory, the
/// SSH login, what to build and start, whether to build without the layer
/// cache, and the optional health check.
#[derive(Debug, Clone)]
pub struct DeployRequest {
    pub package_request: PackageRequest,
    pub remote_dir: String,
    pub ssh_host: String,
    pub ssh_port: u16,
    pub ssh_user: String,
    pub ssh_password: String,
    pub compose: ComposeSpec,
    pub no_cache: bool,
    pub health_check: Option<HealthCheckSpec>,
}

/// What a finished deployment reports: where the archive was uploaded and
/// the release it became.
#[derive(Debug, Clone)]
pub struct DeployResult {
    pub remote_archive_path: String,
    pub release_id: String,
}

/// Why talking to the remote host failed; the SSH library's and the
/// system's own errors are held as their messages.
#[derive(Debug)]
pub enum RemoteError {
    Resolve(String),
    TcpConnect(String),
    CreateSession,
    Handshake(String),
    Auth(String),
    Upload(String),
    Exec(String),
    ExitStatus(i32),
    Ssh(String),
}

/// The message of a remote error.
pub open spec fn remote_error_text(e: RemoteError) -> Seq<char> {
    match e {
        RemoteError::Resolve(a) => "无法解析 SSH 地址: "@ + a@,
        RemoteError::TcpConnect(m) => "建立 TCP 连接失败: "@ + m@,
        RemoteError::CreateSession => "创建 SSH 会话失败"@,
        RemoteError::Handshake(m) => "SSH 握手失败: "@ + m@,
        RemoteError::Auth(m) => "SSH 密码认证失败: "@ + m@,
        RemoteError::Upload(m) => "SFTP 上传失败: "@ + m@,
        RemoteError::Exec(m) => "远端命令执行失败: "@ + m@,
        RemoteError::ExitStatus(code) => "远端命令退出码非零: "@ + signed_decimal(code as int),
        RemoteError::Ssh(m) => "SSH 协议错误: "@ + m@,
    }
}

impl RemoteError {
    /// The message of the error.
    pub fn message(&self) -> (r: String)
        ensures
            r@ == remote_error_text(*self),
    {
        match self {
            RemoteError::Resolve(a) => prefixed("无法解析 SSH 地址: ", a.as_str()),
            RemoteError::TcpConnect(m) => prefixed("建立 TCP 连接失败: ", m.as_str()),
            RemoteError::CreateSession => "创建 SSH 会话失败".to_owned(),
            RemoteError::Handshake(m) => prefixed("SSH 握手失败: ", m.as_str()),
            RemoteError::Auth(m) => prefixed("SSH 密码认证失败: ", m.as_str()),
            RemoteError::Upload(m) => prefixed("SFTP 上传失败: ", m.as_str()),
            RemoteError::Exec(m) => prefixed("远端命令执行失败: ", m.as_str()),
            RemoteError::ExitStatus(code) => {
                let mut r = "远端命令退出码非零: ".to_owned();
                push_signed_decimal(&mut r, *code);
                r
            },
            RemoteError::Ssh(m) => prefixed("SSH 协议错误: ", m.as_str()),
        }
    }
}

/// A finished remote command succeeded only with exit status 0.
pub fn check_exit_status(status: i32) -> (r: Result<(), RemoteError>)
    ensures
        status == 0 ==> r is Ok,
        status != 0 ==> (r matches Err(RemoteError::ExitStatus(s)) && s == status),
{
    if status != 0 {
        Err(RemoteError::ExitStatus(status))
    } else {
        Ok(())
    }
}

/// Why a deployment failed.
#[derive(Debug)]
pub enum DeployError {
    Package(PackageError),
    Remote(RemoteError),
    Health(HealthCheckError),
    Tempfile(String),
}

/// The message of a deployment error: that of the packaging, remote or
/// health-check error it wraps, or the temporary directory's failure.
pub open spec fn deploy_error_text(e: DeployError) -> Seq<char> {
    match e {
        DeployError::Package(p) => package_error_text(p),
        DeployError::Remote(r) => remote_error_text(r),
        DeployError::Health(h) => health_error_text(h),
        DeployError::Tempfile(m) => "生成临时归档失败: "@ + m@,
    }
}

impl DeployError {
    /// The message of the error.
    pub fn message(&self) -> (r: String)
        ensures
            r@ == deploy_error_text(*self),
    {
        match self {
            DeployError::Package(p) => p.message(),
            DeployError::Remote(r) => r.message(),
            DeployError::Health(h) => h.message(),
            DeployError::Tempfile(m) => prefixed("生成临时归档失败: ", m.as_str()),
        }
    }
}

/// Where a deployment stands. The archive path and release id are known
/// once the package is built.
#[derive(Debug)]
pub enum DeployStage {
    Start,
    Packaging,
    Uploading { remote_archive_path: String, release_id: String },
    RunningScript { remote_archive_path: String, release_id: String },
    CheckingHealth { remote_archive_path: String, release_id: String },
    Finished,
    Failed,
}

/// What the outside world reports back to a deployment: the start; the
/// package built (with the project's name) or not, and the clock reading
/// and process id at that moment; the upload, the remote script and the
/// health check done or failed.
#[derive(Debug)]
pub enum DeployEvent {
    Begin,
    Packaged { outcome: Result<String, DeployError>, timestamp_secs: u64, pid: u32 },
    Uploaded(Result<(), RemoteError>),
    ScriptRan(Result<(), RemoteError>),
    HealthChecked(Result<(), HealthCheckError>),
}

/// What a deployment asks the outside world to do next: build the package
/// in a fresh temporary directory, upload it to the given remote path, run
/// the given script remotely, wait for the request's health check; or it
/// reports its end.
#[derive(Debug)]
pub enum DeployAction {
    BuildPackage,
    Upload { remote_archive_path: String },
    RunScript { script: String },
    WaitForHealth,
    Finish(DeployResult),
    Abort(DeployError),
}

/// `DeployStage` with its texts as character sequences.
pub enum DeployStageView {
    Start,
    Packaging,
    Uploading { archive: Seq<char>, release: Seq<char> },
    RunningScript { archive: Seq<char>, release: Seq<char> },
    CheckingHealth { archive: Seq<char>, release: Seq<char> },
    Finished,
    Failed,
}

/// `DeployEvent` as what it says: whether each step succeeded, and the
/// project's name and clock reading when the package was built.
pub enum DeployEventView {
    Begin,
    Packaged { project_name: Option<Seq<char>>, timestamp_secs: u64, pid: u32 },
    Uploaded(bool),
    ScriptRan(bool),
    HealthChecked(bool),
}

/// `DeployAction` with its texts as character sequences.
pub enum DeployActionView {
    BuildPackage,
    Upload { archive: Seq<char> },
    RunScript { script: Seq<char> },
    WaitForHealth,
    Finish { archive: Seq<char>, release: Seq<char> },
    Abort,
}

impl View for DeployStage {
    type V = DeployStageView;

    open spec fn view(&self) -> DeployStageView {
        match self {
            DeployStage::Start => DeployStageView::Start,
            DeployStage::Packaging => DeployStageView::Packaging,
            DeployStage::Uploading { remote_archive_path, release_id } => DeployStageView::Uploading {
                archive: remote_archive_path@,
                release: release_id@,
            },
            DeployStage::RunningScript { remote_archive_path, release_id } =>
                DeployStageView::RunningScript { archive: remote_archive_path@, release: release_id@ },
            DeployStage::CheckingHealth { remote_archive_path, release_id } =>
                DeployStageView::CheckingHealth { archive: remote_archive_path@, release: release_id@ },
            DeployStage::Finished => DeployStageView::Finished,
            DeployStage::Failed => DeployStageView::Failed,
        }
    }
}

impl View for DeployEvent {
    type V = DeployEventView;

    open spec fn view(&self) -> DeployEventView {
        match self {
            DeployEvent::Begin => DeployEventView::Begin,
            DeployEvent::Packaged { outcome, timestamp_secs, pid } => DeployEventView::Packaged {
                project_name: match outcome {
                    Ok(n) => Some(n@),
                    Err(_) => None,
                },
                timestamp_secs: *timestamp_secs,
                pid: *pid,
            },
            DeployEvent::Uploaded(r) => DeployEventView::Uploaded(r is Ok),
            DeployEvent::ScriptRan(r) => DeployEventView::ScriptRan(r is Ok),
            DeployEvent::HealthChecked(r) => DeployEventView::HealthChecked(r is Ok),
        }
    }
}

impl View for DeployAction {
    type V = DeployActionView;

    open spec fn view(&self) -> DeployActionView {
        match self {
            DeployAction::BuildPackage => DeployActionView::BuildPackage,
            DeployAction::Upload { remote_archive_path } => DeployActionView::Upload {
                archive: remote_archive_path@,
            },
            DeployAction::RunScript { script } => DeployActionView::RunScript { script: script@ },
            DeployAction::WaitForHealth => DeployActionView::WaitForHealth,
            DeployAction::Finish(r) => DeployActionView::Finish {
                archive: r.remote_archive_path@,
                release: r.release_id@,
            },
            DeployAction::Abort(_) => DeployActionView::Abort,
        }
    }
}

/// Whether a stage waits for that kind of report.
pub open spec fn accepts(stage: DeployStageView, event: DeployEventView) -> bool {
    match stage {
        DeployStageView::Start => event is Begin,
        DeployStageView::Packaging => event is Packaged,
        DeployStageView::Uploading { .. } => event is Uploaded,
        DeployStageView::RunningScript { .. } => event is ScriptRan,
        DeployStageView::CheckingHealth { .. } => event is HealthChecked,
        DeployStageView::Finished => false,
        DeployStageView::Failed => false,
    }
}

/// The order of a deployment (`deploy`): build the package; upload it to
/// `/tmp/<project>-<release>.tar.gz`; run the remote script for that archive
/// and release; wait for the health check when the request has one; finish
/// with the archive path and release. Any failure ends the deployment.
pub open spec fn deploy_next(request: DeployRequest, stage: DeployStageView, event: DeployEventView) -> (
    DeployStageView,
    DeployActionView,
) {
    match (stage, event) {
        (DeployStageView::Start, DeployEventView::Begin) => (
            DeployStageView::Packaging,
            DeployActionView::BuildPackage,
        ),
        (DeployStageView::Packaging, DeployEventView::Packaged { project_name, timestamp_secs, pid }) =>
            match project_name {
            Some(name) => {
                let release = release_id_text(timestamp_secs, pid);
                let archive = remote_archive_text(name, release);
                (DeployStageView::Uploading { archive, release }, DeployActionView::Upload { archive })
            },
            None => (DeployStageView::Failed, DeployActionView::Abort),
        },
        (DeployStageView::Uploading { archive, release }, DeployEventView::Uploaded(ok)) => if ok {
            (
                DeployStageView::RunningScript { archive, release },
                DeployActionView::RunScript { script: request_script(request, archive, release) },
            )
        } else {
            (DeployStageView::Failed, DeployActionView::Abort)
        },
        (DeployStageView::RunningScript { archive, release }, DeployEventView::ScriptRan(ok)) => if !ok {
            (DeployStageView::Failed, DeployActionView::Abort)
        } else if request.health_check is Some {
            (DeployStageView::CheckingHealth { archive, release }, DeployActionView::WaitForHealth)
        } else {
            (DeployStageView::Finished, DeployActionView::Finish { archive, release })
        },
        (DeployStageView::CheckingHealth { archive, release }, DeployEventView::HealthChecked(ok)) =>
            if ok {
            (DeployStageView::Finished, DeployActionView::Finish { archive, release })
        } else {
            (DeployStageView::Failed, DeployActionView::Abort)
        },
        _ => (stage, DeployActionView::Abort),
    }
}

/// Takes one step of a deployment: from where it stands and what was
/// reported, where it stands next and what is to be done. A failure report
/// ends it with that failure as the error (the remote's and the health
/// check's wrapped as such).
pub fn deploy_step(request: &DeployRequest, stage: DeployStage, event: DeployEvent) -> (r: (
    DeployStage,
    DeployAction,
))
    requires
        accepts(stage@, event@),
    ensures
        (r.0@, r.1@) == deploy_next(*request, stage@, event@),
        match event {
            DeployEvent::Packaged { outcome: Err(e), .. } => r.1 == DeployAction::Abort(e),
            DeployEvent::Uploaded(Err(e)) => r.1 == DeployAction::Abort(DeployError::Remote(e)),
            DeployEvent::ScriptRan(Err(e)) => r.1 == DeployAction::Abort(DeployError::Remote(e)),
            DeployEvent::HealthChecked(Err(e)) => r.1 == DeployAction::Abort(DeployError::Health(e)),
            _ => true,
        },
{
    match (stage, event) {
        (DeployStage::Start, DeployEvent::Begin) => (DeployStage::Packaging, DeployAction::BuildPackage),
        (DeployStage::Packaging, DeployEvent::Packaged { outcome, timestamp_secs, pid }) => {
            match outcome {
                Ok(name) => {
                    let release_id = build_release_id(timestamp_secs, pid);
                    let path = remote_archive_path(name.as_str(), release_id.as_str());
                    let upload = path.clone();
                    (
                        DeployStage::Uploading { remote_archive_path: path, release_id },
                        DeployAction::Upload { remote_archive_path: upload },
                    )
                },
                Err(e) => (DeployStage::Failed, DeployAction::Abort(e)),
            }
        },
        (DeployStage::Uploading { remote_archive_path, release_id }, DeployEvent::Uploaded(done)) => {
            match done {
                Ok(()) => {
                    let script = render_remote_script(
                        request,
                        remote_archive_path.as_str(),
                        release_id.as_str(),
                    );
                    (
                        DeployStage::RunningScript { remote_archive_path, release_id },
                        DeployAction::RunScript { script },
                    )
                },
                Err(e) => (DeployStage::Failed, DeployAction::Abort(DeployError::Remote(e))),
            }
        },
        (DeployStage::RunningScript { remote_archive_path, release_id }, DeployEvent::ScriptRan(done)) => {
            match done {
                Ok(()) => {
                    if request.health_check.is_some() {
                        (
                            DeployStage::CheckingHealth { remote_archive_path, release_id },
                            DeployAction::WaitForHealth,
                        )
                    } else {
                        (
                            DeployStage::Finished,
                            DeployAction::Finish(DeployResult { remote_archive_path, release_id }),
                        )
                    }
                },
                Err(e) => (DeployStage::Failed, DeployAction::Abort(DeployError::Remote(e))),
            }
        },
        (
            DeployStage::CheckingHealth { remote_archive_path, release_id },
            DeployEvent::HealthChecked(done),
        ) => {
            match done {
                Ok(()) => (
                    DeployStage::Finished,
                    DeployAction::Finish(DeployResult { remote_archive_path, release_id }),
                ),
                Err(e) => (DeployStage::Failed, DeployAction::Abort(DeployError::Health(e))),
            }
        },
        _ => vstd::pervasive::unreached(),
    }
}

/// Whether a report tells of a failure.
pub open spec fn reports_failure(event: DeployEventView) -> bool {
    match event {
        DeployEventView::Packaged { project_name, .. } => project_name is None,
        DeployEventView::Uploaded(ok) => !ok,
        DeployEventView::ScriptRan(ok) => !ok,
        DeployEventView::HealthChecked(ok) => !ok,
        DeployEventView::Begin => false,
    }
}

/// A deployment in which every step succeeds builds the package, uploads
/// it to `/tmp/<project>-<release>.tar.gz`, runs the script for that archive
/// and release, waits for the health check exactly when one is asked for,
/// and finishes with that archive path and release id.
pub proof fn lemma_deploy_successful_run(
    request: DeployRequest,
    project_name: Seq<char>,
    timestamp_secs: u64,
    pid: u32,
)
    ensures
        ({
            let release = release_id_text(timestamp_secs, pid);
            let archive = remote_archive_text(project_name, release);
            &&& deploy_next(request, DeployStageView::Start, DeployEventView::Begin) == (
                DeployStageView::Packaging,
                DeployActionView::BuildPackage,
            )
            &&& deploy_next(
                request,
                DeployStageView::Packaging,
                DeployEventView::Packaged { project_name: Some(project_name), timestamp_secs, pid },
            ) == (DeployStageView::Uploading { archive, release }, DeployActionView::Upload { archive })
            &&& deploy_next(
                request,
                DeployStageView::Uploading { archive, release },
                DeployEventView::Uploaded(true),
            ) == (
                DeployStageView::RunningScript { archive, release },
                DeployActionView::RunScript { script: request_script(request, archive, release) },
            )
            &&& if request.health_check is Some {
                &&& deploy_next(
                    request,
                    DeployStageView::RunningScript { archive, release },
                    DeployEventView::ScriptRan(true),
                ) == (DeployStageView::CheckingHealth { archive, release }, DeployActionView::WaitForHealth)
                &&& deploy_next(
                    request,
                    DeployStageView::CheckingHealth { archive, release },
                    DeployEventView::HealthChecked(true),
                ) == (DeployStageView::Finished, DeployActionView::Finish { archive, release })
            } else {
                deploy_next(
                    request,
                    DeployStageView::RunningScript { archive, release },
                    DeployEventView::ScriptRan(true),
                ) == (DeployStageView::Finished, DeployActionView::Finish { archive, release })
            }
        }),
{
}

/// A failure reported at any step ends the deployment: it is aborted, and
/// no further report is taken.
pub proof fn lemma_deploy_failure_ends(request: DeployRequest, stage: DeployStageView, event: DeployEventView)
    requires
        accepts(stage, event),
        reports_failure(event),
    ensures
        deploy_next(request, stage, event) == (DeployStageView::Failed, DeployActionView::Abort),
        forall|e: DeployEventView| !accepts(DeployStageView::Failed, e),
{
}

/// A finished deployment takes no further report.
pub proof fn lemma_deploy_finished_is_final(e: DeployEventView)
    ensures
        !accepts(DeployStageView::Finished, e),
{
}

/// The remote script runs only once the archive is uploaded, and it is the
/// script for exactly that archive and release.
pub proof fn lemma_script_runs_uploaded_archive(
    request: DeployRequest,
    stage: DeployStageView,
    event: DeployEventView,
)
    requires
        accepts(stage, event),
        deploy_next(request, stage, event).1 is RunScript,
    ensures
        stage is Uploading,
        event == DeployEventView::Uploaded(true),
        deploy_next(request, stage, event).1 == (DeployActionView::RunScript {
            script: request_script(request, stage->Uploading_archive, stage->Uploading_release),
        }),
{
}

/// A deployment finishes only after its script ran, and after the health
/// check when one is asked for; it reports the archive and release it was
/// working on.
pub proof fn lemma_finish_after_script_and_health(
    request: DeployRequest,
    stage: DeployStageView,
    event: DeployEventView,
)
    requires
        accepts(stage, event),
        deploy_next(request, stage, event).1 is Finish,
    ensures
        (stage is RunningScript && request.health_check is None && event
            == DeployEventView::ScriptRan(true)) || (stage is CheckingHealth && event
            == DeployEventView::HealthChecked(true)),
{
}

/// The health check is waited for exactly when the request asks for one.
pub proof fn lemma_health_waited_iff_requested(
    request: DeployRequest,
    archive: Seq<char>,
    release: Seq<char>,
)
    ensures
        deploy_next(
            request,
            DeployStageView::RunningScript { archive, release },
            DeployEventView::ScriptRan(true),
        ).1 is WaitForHealth <==> request.health_check is Some,
{
}

/// The archive is uploaded under `/tmp/`, named `.tar.gz`.
pub proof fn lemma_remote_archive_in_tmp(project_name: Seq<char>, release_id: Seq<char>)
    ensures
        remote_archive_text(project_name, release_id).take(5) == "/tmp/"@,
        remote_archive_text(project_name, release_id).len() >= 12,
{
    reveal_strlit("/tmp/");
    reveal_strlit(".tar.gz");
    let t = remote_archive_text(project_name, release_id);
    assert(t.take(5) =~= "/tmp/"@);
}

} // verus!
