use flux_mcp::diagnostics::{
    is_syntax_error_diagnostic, retain_only_syntax_errors, Diagnostic, DiagnosticMessage,
};

fn diag(level: &str, text: &str) -> Diagnostic {
    Diagnostic {
        message: DiagnosticMessage {
            level: level.to_string(),
            message: text.to_string(),
            code: None,
            rendered: None,
            spans: Vec::new(),
        },
        package_id: None,
        target: None,
    }
}

fn texts(ds: &[Diagnostic]) -> Vec<String> {
    ds.iter().map(|d| d.message.message.clone()).collect()
}

#[test]
fn division_by_zero_is_excluded() {
    assert!(!is_syntax_error_diagnostic(&diag("error", "possible division by zero in foo")));
    assert!(retain_only_syntax_errors(vec![diag("error", "possible division by zero in foo")]).is_empty());
}

#[test]
fn mismatched_types_is_kept() {
    assert!(is_syntax_error_diagnostic(&diag("error", "mismatched types")));
    let kept = retain_only_syntax_errors(vec![diag("error", "mismatched types")]);
    assert_eq!(texts(&kept), vec!["mismatched types"]);
}

#[test]
fn warnings_are_always_excluded() {
    assert!(!is_syntax_error_diagnostic(&diag("warning", "mismatched types")));
    assert!(!is_syntax_error_diagnostic(&diag("warning", "")));
    assert!(!is_syntax_error_diagnostic(&diag("Error", "mismatched types")));
}

#[test]
fn every_marker_excludes() {
    let markers = [
        "error jumping to join point",
        "assignment might be unsafe",
        "call to function that may panic",
        "refinement type error",
        "possible division by zero",
        "possible reminder with a divisor of zero",
        "assertion might fail",
        "parameter inference error at function call",
        "type invariant may not hold (when place is folded)",
        "cannot prove this code safe",
        "arithmetic operation may overflow",
        "arithmetic operation may underflow",
        "unsupported type in function call",
        "invariant cannot be proven",
        "associated refinement",
    ];
    for m in markers {
        let text = format!("at foo.rs: {} here", m);
        assert!(!is_syntax_error_diagnostic(&diag("error", &text)), "{}", m);
    }
    assert!(is_syntax_error_diagnostic(&diag("error", "Refinement Type Error")));
}

#[test]
fn filter_keeps_order_and_is_idempotent() {
    let ds = vec![
        diag("error", "a"),
        diag("warning", "b"),
        diag("error", "assertion might fail"),
        diag("error", "c"),
        diag("error", "a"),
    ];
    let once = retain_only_syntax_errors(ds);
    assert_eq!(texts(&once), vec!["a", "c", "a"]);
    let twice = retain_only_syntax_errors(once);
    assert_eq!(texts(&twice), vec!["a", "c", "a"]);
    assert!(retain_only_syntax_errors(Vec::new()).is_empty());
}
