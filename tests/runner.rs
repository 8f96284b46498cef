use flux_mcp::runner::FluxRunner;
use flux_mcp::tools::{
    lemmas_error, report_summary, syntax_errors_response, syntax_errors_summary, verification_error,
};

const REFINEMENT: &str = r#"{"reason":"compiler-message","message":{"level":"error","message":"refinement type error in bar","spans":[]}}"#;

#[test]
fn exit_status_decides_success() {
    let output = format!("{}\n", r#"{"reason":"compiler-message","message":{"level":"error","message":"mismatched types","spans":[]}}"#);
    let report = FluxRunner::verification_report(true, &output);
    assert!(report.success);
    assert_eq!(report.diagnostics.len(), 1);
    let report = FluxRunner::verification_report(false, "");
    assert!(!report.success);
    assert!(report.diagnostics.is_empty());
}

#[test]
fn end_to_end_refinement_error() {
    let output = format!("{}\n", REFINEMENT);
    let report = FluxRunner::verification_report(false, &output);
    assert!(!report.success);
    assert_eq!(report.diagnostics.len(), 1);
    assert_eq!(report_summary(report.success), "Verification Failed");

    let again = FluxRunner::verification_report(false, &output);
    let (errors, summary) = syntax_errors_response(again.diagnostics);
    assert!(errors.is_empty());
    assert_eq!(summary, "Found 0 syntax errors");
}

#[test]
fn summaries() {
    assert_eq!(report_summary(true), "Verification Succeeded");
    assert_eq!(report_summary(false), "Verification Failed");
    assert_eq!(syntax_errors_summary(12), "Found 12 syntax errors");
    assert_eq!(syntax_errors_summary(1), "Found 1 syntax errors");
    assert_eq!(verification_error("boom"), "Verification failed boom");
    assert_eq!(lemmas_error("boom"), "Failed to fetch lemmas boom");
}

#[test]
fn syntax_errors_response_counts_kept() {
    let output = [
        r#"{"reason":"compiler-message","message":{"level":"error","message":"mismatched types"}}"#,
        REFINEMENT,
        r#"{"reason":"compiler-message","message":{"level":"error","message":"cannot find value `x`"}}"#,
    ]
    .join("\n");
    let report = FluxRunner::verification_report(true, &output);
    let (errors, summary) = syntax_errors_response(report.diagnostics);
    assert_eq!(errors.len(), 2);
    assert_eq!(errors[1].message.message, "cannot find value `x`");
    assert_eq!(summary, "Found 2 syntax errors");
}

#[test]
fn repository_command() {
    let cmd = FluxRunner::verification_command("/repo", None);
    assert_eq!(cmd.program, "cargo");
    assert_eq!(cmd.current_dir, "/repo");
    assert_eq!(cmd.args, vec!["flux", "--message-format=json"]);
    assert_eq!(cmd.flags_var, "FLUXFLAGS");
    assert!(cmd.flags_env.is_none());
}

#[test]
fn package_command() {
    let pkgs = ["core", "cli"];
    let cmd = FluxRunner::verification_command("/repo", Some(&pkgs));
    assert_eq!(cmd.args, vec!["flux", "-p", "core", "-p", "cli", "--message-format=json"]);
    let none: [&str; 0] = [];
    let cmd = FluxRunner::verification_command("/repo", Some(&none));
    assert_eq!(cmd.args, vec!["flux", "--message-format=json"]);
}

#[test]
fn lemmas_command_sets_flags() {
    let cmd = FluxRunner::lemmas_command("/r");
    assert_eq!(cmd.args, vec!["flux", "--message-format=json"]);
    assert_eq!(cmd.flags_env.as_deref(), Some("-Fdump-lemmas"));
    let flags = ["-Fa", "-Fb", "-Fc"];
    let cmd = FluxRunner::flux_command("/r", None, Some(&flags));
    assert_eq!(cmd.flags_env.as_deref(), Some("-Fa -Fb -Fc"));
}
