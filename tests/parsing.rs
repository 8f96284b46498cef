use flux_mcp::runner::FluxRunner;

const DIVISION: &str = r#"{"reason":"compiler-message","message":{"level":"error","message":"possible division by zero in foo","spans":[]}}"#;

#[test]
fn skips_lines_that_are_not_json() {
    let output = format!("not json at all\n{{\"reason\":\n{}\n", DIVISION);
    let ds = FluxRunner::parse_flux_output(&output);
    assert_eq!(ds.len(), 1);
    assert_eq!(ds[0].message.message, "possible division by zero in foo");
}

#[test]
fn skips_lines_with_another_reason() {
    let output = format!(
        "{}\n{}\n{}\n",
        r#"{"reason":"build-finished","success":true}"#,
        r#"{"message":{"level":"error","message":"no reason"}}"#,
        DIVISION
    );
    let ds = FluxRunner::parse_flux_output(&output);
    assert_eq!(ds.len(), 1);
    assert_eq!(ds[0].message.level, "error");
}

#[test]
fn drops_messages_without_level_or_text() {
    let output = [
        r#"{"reason":"compiler-message","message":{"message":"no level"}}"#,
        r#"{"reason":"compiler-message","message":{"level":"warning","message":"kept"}}"#,
        r#"{"reason":"compiler-message","message":{"level":"error"}}"#,
        r#"{"reason":"compiler-message","message":{"level":"error","message":7}}"#,
    ]
    .join("\n");
    let ds = FluxRunner::parse_flux_output(&output);
    assert_eq!(ds.len(), 1);
    assert_eq!(ds[0].message.message, "kept");
    assert_eq!(ds[0].message.level, "warning");
}

#[test]
fn keeps_the_order_of_the_lines() {
    let output = [
        r#"{"reason":"compiler-message","message":{"level":"error","message":"first"}}"#,
        "garbage",
        r#"{"reason":"compiler-message","message":{"level":"warning","message":"second"}}"#,
        r#"{"reason":"compiler-message","message":{"level":"error","message":"first"}}"#,
    ]
    .join("\r\n");
    let ds = FluxRunner::parse_flux_output(&output);
    let texts: Vec<&str> = ds.iter().map(|d| d.message.message.as_str()).collect();
    assert_eq!(texts, vec!["first", "second", "first"]);
}

#[test]
fn empty_output_has_no_diagnostics() {
    assert!(FluxRunner::parse_flux_output("").is_empty());
    assert!(FluxRunner::parse_flux_lemmas("\n\n").is_empty());
}

#[test]
fn reads_optional_message_fields() {
    let line = r#"{"reason":"compiler-message","package_id":"demo 0.1.0","message":{"level":"error","message":"mismatched types","code":"E0308","rendered":"error[E0308]"}}"#;
    let d = FluxRunner::parse_diagnostic_line(line).unwrap();
    assert_eq!(d.message.code.as_deref(), Some("E0308"));
    assert_eq!(d.message.rendered.as_deref(), Some("error[E0308]"));
    assert_eq!(d.package_id.as_deref(), Some("\"demo 0.1.0\""));
    assert!(d.target.is_none());
    assert!(d.message.spans.is_empty());
}

#[test]
fn package_id_is_rendered_json() {
    let line = r#"{"reason":"compiler-message","package_id":{"a":[1,true]},"message":{"level":"error","message":"m","code":5}}"#;
    let d = FluxRunner::parse_diagnostic_line(line).unwrap();
    assert_eq!(d.package_id.as_deref(), Some(r#"{"a":[1,true]}"#));
    assert!(d.message.code.is_none());
}

#[test]
fn span_fields_default_when_malformed() {
    let line = r#"{"reason":"compiler-message","message":{"level":"error","message":"m","spans":[{"file_name":"a.rs","line_start":"x","column_start":2,"line_end":3.5,"column_end":4,"is_primary":"yes"},{"file_name":"b.rs","line_start":1,"column_start":1,"line_end":1,"column_end":9,"is_primary":false}]}}"#;
    let d = FluxRunner::parse_diagnostic_line(line).unwrap();
    assert_eq!(d.message.spans.len(), 2);
    let s = &d.message.spans[0];
    assert_eq!(s.file_name, "a.rs");
    assert_eq!((s.line_start, s.column_start, s.line_end, s.column_end), (0, 2, 0, 4));
    assert!(s.is_primary);
    assert!(!d.message.spans[1].is_primary);
    assert_eq!(d.message.spans[1].column_end, 9);
}

#[test]
fn span_without_is_primary_empties_the_spans() {
    let line = r#"{"reason":"compiler-message","message":{"level":"error","message":"m","spans":[{"file_name":"b.rs","line_start":1,"column_start":1,"line_end":1,"column_end":9,"is_primary":true},{"file_name":"a.rs","line_start":1,"column_start":2,"line_end":3,"column_end":4}]}}"#;
    let d = FluxRunner::parse_diagnostic_line(line).unwrap();
    assert!(d.message.spans.is_empty());
}

#[test]
fn spans_that_are_no_array_read_as_none() {
    let line = r#"{"reason":"compiler-message","message":{"level":"note","message":"m","spans":{"file_name":"a.rs"}}}"#;
    let d = FluxRunner::parse_diagnostic_line(line).unwrap();
    assert!(d.message.spans.is_empty());
    assert_eq!(d.message.level, "note");
}

#[test]
fn target_kind_is_all_or_nothing() {
    let good = r#"{"reason":"compiler-message","target":{"name":"demo","kind":["lib","rlib"]},"message":{"level":"error","message":"m"}}"#;
    let t = FluxRunner::parse_diagnostic_line(good).unwrap().target.unwrap();
    assert_eq!(t.name, "demo");
    assert_eq!(t.kind, Some(vec!["lib".to_string(), "rlib".to_string()]));

    let bad = r#"{"reason":"compiler-message","target":{"name":"demo","kind":["lib",3]},"message":{"level":"error","message":"m"}}"#;
    assert!(FluxRunner::parse_diagnostic_line(bad).unwrap().target.is_none());

    let not_array = r#"{"reason":"compiler-message","target":{"name":"demo","kind":"lib"},"message":{"level":"error","message":"m"}}"#;
    assert!(FluxRunner::parse_diagnostic_line(not_array).unwrap().target.is_none());

    let no_kind = r#"{"reason":"compiler-message","target":{"name":"demo"},"message":{"level":"error","message":"m"}}"#;
    let t = FluxRunner::parse_diagnostic_line(no_kind).unwrap().target.unwrap();
    assert!(t.kind.is_none());

    let no_name = r#"{"reason":"compiler-message","target":{"kind":["lib"]},"message":{"level":"error","message":"m"}}"#;
    assert!(FluxRunner::parse_diagnostic_line(no_name).unwrap().target.is_none());
}

#[test]
fn lemma_scenario() {
    let line = r#"{"reason":"compiler-message","message":{"lemma_name":"head_cons_eq","file_name":"a.rs","start_line":1,"start_col":0,"end_line":3,"end_col":1}}"#;
    let lemmas = FluxRunner::parse_flux_lemmas(&format!("{}\n", line));
    assert_eq!(lemmas.len(), 1);
    let l = &lemmas[0];
    assert_eq!(l.name, "head_cons_eq");
    assert_eq!(l.file_name, "a.rs");
    assert_eq!((l.start_line, l.start_col, l.end_line, l.end_col), (1, 0, 3, 1));
}

#[test]
fn lemma_with_a_missing_or_malformed_bound_is_dropped() {
    let output = [
        r#"{"reason":"compiler-message","message":{"lemma_name":"a","file_name":"a.rs","start_line":1,"start_col":0,"end_line":3}}"#,
        r#"{"reason":"compiler-message","message":{"lemma_name":"b","file_name":"a.rs","start_line":1,"start_col":0,"end_line":"3","end_col":1}}"#,
        r#"{"reason":"other","message":{"lemma_name":"c","file_name":"a.rs","start_line":1,"start_col":0,"end_line":3,"end_col":1}}"#,
        r#"{"reason":"compiler-message","message":{"lemma_name":"d","file_name":"d.rs","start_line":-1,"start_col":0,"end_line":3,"end_col":1}}"#,
    ]
    .join("\n");
    let lemmas = FluxRunner::parse_flux_lemmas(&output);
    assert_eq!(lemmas.len(), 1);
    assert_eq!(lemmas[0].name, "d");
    assert_eq!(lemmas[0].start_line, -1);
}
