use subdeploy::{
    insert_default_command, is_explicit_command, normalize_args, shell_quote, shell_quote_path,
};

fn args(items: &[&str]) -> Vec<String> {
    items.iter().map(|s| s.to_string()).collect()
}

#[test]
fn normalize_args_inserts_deploy_by_default() {
    let args = normalize_args(args(&["sd", "-u", "root", "-p", "secret", "-h", "example.com"]));
    assert_eq!(
        args,
        vec!["sd", "deploy", "-u", "root", "-p", "secret", "-h", "example.com"]
    );
}

#[test]
fn normalize_args_keeps_explicit_subcommand() {
    let args = normalize_args(args(&["sd", "validate", "--project-dir", "."]));
    assert_eq!(args, vec!["sd", "validate", "--project-dir", "."]);
}

#[test]
fn normalize_args_is_idempotent() {
    let once = normalize_args(args(&["sd", "-h", "example.com"]));
    let twice = normalize_args(once.clone());
    assert_eq!(once, twice);
    assert_eq!(normalize_args(args(&["sd"])), vec!["sd", "deploy"]);
}

#[test]
fn explicit_commands_are_recognised() {
    for word in ["validate", "package", "deploy", "help", "--help", "--version", "-V"] {
        assert!(is_explicit_command(Some(word)));
    }
    assert!(!is_explicit_command(Some("-h")));
    assert!(!is_explicit_command(Some("Deploy")));
    assert!(!is_explicit_command(None));
}

#[test]
fn shell_quote_escapes_single_quotes() {
    assert_eq!(shell_quote("plain"), "'plain'");
    assert_eq!(shell_quote(""), "''");
    assert_eq!(shell_quote("it's"), "'it'\\''s'");
    assert_eq!(shell_quote("$(rm -rf /)"), "'$(rm -rf /)'");
    assert_eq!(shell_quote_path(&args(&["deploy", "Docker file"])), "'deploy/Docker file'");
}

#[test]
fn default_command_goes_after_program_name() {
    assert_eq!(insert_default_command(vec![1, 2, 3], Some("-u"), 9), vec![1, 9, 2, 3]);
    assert_eq!(insert_default_command(vec![1, 2, 3], Some("package"), 9), vec![1, 2, 3]);
    assert_eq!(insert_default_command(vec![1, 2], None, 9), vec![1, 9, 2]);
    assert_eq!(insert_default_command(vec![1], None, 9), vec![1, 9]);
}
