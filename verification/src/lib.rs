//! Verified core of a deployment tool that ships a Docker project to a
//! remote host over SSH: argument normalisation, compose-file inspection,
//! project file selection, remote script rendering, health polling and the
//! order of the deployment steps. Paths are held as their components; the
//! file system, the network and the clock are read by the caller, which
//! hands their answers to these functions.

pub mod text;
pub mod shell;
pub mod paths;
pub mod packager;
pub mod compose;
pub mod health;
pub mod script;
pub mod deploy;
pub mod args;

pub use args::{insert_default_command, is_explicit_command, normalize_args};
pub use compose::{
    build_compose_spec, default_image_tag, parse_compose_services, resolve_service_name,
    ComposeError, ComposeSpec, ServiceNameError,
};
pub use deploy::{
    check_exit_status, deploy_step, DeployAction, DeployError, DeployEvent, DeployRequest,
    DeployResult, DeployStage, RemoteError,
};
pub use health::{HealthCheckError, HealthCheckSpec, HealthPoll, ProbeOutcome};
pub use packager::{
    check_project_dir, collect_files, compose_candidates, dockerfile_candidate, inspect_project,
    inspect_project_dir, ProjectDirProbe,
    path_relative_to, plan_package, resolve_compose_file, resolve_dockerfile,
    resolve_required_file, FileProbe, PackageError, PackageRequest, ProjectInspection,
    ProjectPackage, ProjectScan, WalkEntry,
};
pub use paths::{compare_paths, join_path, path_to_text, strip_prefix};
pub use script::{
    build_release_id, default_remote_dir, remote_archive_path, render_remote_script,
};
pub use shell::{shell_quote, shell_quote_path};
