use ctxpack::cli::{
    adapter_options, push_checkbox_list, push_plain_path_list, role_filter_label,
    split_regression_threshold, trace_disabled_diagnostic, AgentAdapter,
};
use ctxpack::model::{DiagnosticSeverity, FileRole};

#[test]
fn adapter_flags_select_adapters_in_order() {
    assert_eq!(
        adapter_options(true, false, true),
        vec![AgentAdapter::Cursor, AgentAdapter::OpenCode]
    );
    assert!(adapter_options(false, false, false).is_empty());
}

#[test]
fn regression_thresholds_split_into_metric_and_drop() {
    assert_eq!(
        split_regression_threshold(" recall = 0.05 "),
        Ok(("recall".to_string(), "0.05".to_string()))
    );
    assert_eq!(
        split_regression_threshold("recall"),
        Err("expected metric=max_drop".to_string())
    );
    assert_eq!(
        split_regression_threshold(" =0.1"),
        Err("metric name cannot be empty".to_string())
    );
}

#[test]
fn role_filters_are_labelled() {
    assert_eq!(role_filter_label(&Vec::new()), "all safe roles");
    assert_eq!(
        role_filter_label(&vec![FileRole::Source, FileRole::Test]),
        "Source, Test"
    );
}

#[test]
fn report_lists_render_items_or_the_empty_message() {
    let mut out = String::from("# Report\n");
    push_checkbox_list(&mut out, &vec!["src/a.ts".to_string(), "src/b.ts".to_string()], "none");
    assert_eq!(out, "# Report\n- [ ] `src/a.ts`\n- [ ] `src/b.ts`\n");
    let mut empty = String::new();
    push_plain_path_list(&mut empty, &Vec::new(), "No files.");
    assert_eq!(empty, "- No files.\n");
    let mut paths = String::new();
    push_plain_path_list(&mut paths, &vec!["x".to_string()], "No files.");
    assert_eq!(paths, "- `x`\n");
}

#[test]
fn disabled_trace_note() {
    let d = trace_disabled_diagnostic();
    assert_eq!(d.code, "trace_recording_disabled");
    assert_eq!(d.severity, DiagnosticSeverity::Info);
    assert_eq!(d.count, 1);
}
