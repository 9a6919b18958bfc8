use gen_type_migrate::diag::{ChildMessage, DiagnosticRecord, Excerpt, Span};
use gen_type_migrate::errors::MigrateError;
use gen_type_migrate::pass::{plan_pass, should_stop_early};
use gen_type_migrate::rewrite::{rewrite_file_lines, rewrite_line};

fn span(file: &str, line: usize, excerpt: &str) -> Span {
    Span {
        byte_start: 0,
        byte_end: 0,
        column_start: 1,
        column_end: 1,
        file_name: String::from(file),
        line_start: line,
        line_end: line,
        text: vec![Excerpt {
            highlight_start: 1,
            highlight_end: 1,
            text: String::from(excerpt),
        }],
    }
}

fn child(msg: &str) -> ChildMessage {
    ChildMessage {
        level: String::from("help"),
        message: String::from(msg),
        spans: vec![],
    }
}

fn record(file: &str, line: usize, excerpt: &str, rendered: &str) -> DiagnosticRecord {
    DiagnosticRecord {
        reason: String::from("compiler-message"),
        spans: vec![span(file, line, excerpt)],
        children: vec![],
        rendered: String::from(rendered),
    }
}

fn record_with_child(
    file: &str,
    line: usize,
    excerpt: &str,
    child_msg: &str,
) -> DiagnosticRecord {
    DiagnosticRecord {
        reason: String::from("compiler-message"),
        spans: vec![span(file, line, excerpt)],
        children: vec![child(child_msg)],
        rendered: String::new(),
    }
}

fn lines(texts: &[&str]) -> Vec<String> {
    texts.iter().map(|t| String::from(*t)).collect()
}

#[test]
fn dedup_keeps_first_diagnostic_per_line() {
    let first = record("a.rs", 3, "x.pack()", "first");
    let second = record("a.rs", 3, "Default", "second");
    let idx = plan_pass(vec![first, second]).unwrap();
    let name = String::from("a.rs");
    let kept = idx.get_record(&name, 3).unwrap();
    assert_eq!(kept.rendered, "first");
}

#[test]
fn distinct_lines_are_both_kept() {
    let idx = plan_pass(vec![
        record("a.rs", 1, "x.pack()", "one"),
        record("a.rs", 2, "Default", "two"),
    ])
    .unwrap();
    let name = String::from("a.rs");
    assert_eq!(idx.get_record(&name, 1).unwrap().rendered, "one");
    assert_eq!(idx.get_record(&name, 2).unwrap().rendered, "two");
}

#[test]
fn other_reasons_are_discarded() {
    let mut rec = record("a.rs", 1, "x.pack()", "artifact");
    rec.reason = String::from("compiler-artifact");
    let idx = plan_pass(vec![rec]).unwrap();
    assert!(idx.is_empty());
}

#[test]
fn unmatched_excerpts_are_ignored() {
    let idx = plan_pass(vec![record("a.rs", 1, "let x = 5;", "plain")]).unwrap();
    assert!(idx.is_empty());
}

#[test]
fn compiler_message_without_spans_is_fatal() {
    let mut rec = record("a.rs", 1, "x.pack()", "broken");
    rec.spans = vec![];
    assert_eq!(
        plan_pass(vec![rec]).err(),
        Some(MigrateError::MissingPrimarySpan)
    );
}

#[test]
fn primary_span_without_excerpt_is_fatal() {
    let mut rec = record("a.rs", 1, "x.pack()", "broken");
    rec.spans[0].text = vec![];
    assert_eq!(plan_pass(vec![rec]).err(), Some(MigrateError::MissingSpanText));
}

#[test]
fn last_span_is_the_primary_one() {
    let mut rec = record("a.rs", 7, "x.pack()", "kept");
    rec.spans.insert(0, span("other.rs", 2, "let x = 5;"));
    let idx = plan_pass(vec![rec]).unwrap();
    let name = String::from("a.rs");
    assert!(idx.get_record(&name, 7).is_some());
    let other = String::from("other.rs");
    assert!(idx.get_record(&other, 2).is_none());
}

#[test]
fn unindexed_lines_are_reproduced_exactly() {
    let idx = plan_pass(vec![record("a.rs", 2, "b.into()", "")]).unwrap();
    let name = String::from("a.rs");
    let input = lines(&["let a = 1;", "let b = c.into();", "let d = 2;"]);
    let out = rewrite_file_lines(&idx, &name, &input).unwrap();
    assert_eq!(out[0], "let a = 1;");
    assert_eq!(out[1], "let b = c;");
    assert_eq!(out[2], "let d = 2;");
}

#[test]
fn scenario_call_chain_strip() {
    let idx = plan_pass(vec![record("m.rs", 1, "bar.pack().into()", "")]).unwrap();
    let name = String::from("m.rs");
    let input = lines(&["let x: Foo = bar.pack().into();"]);
    let out = rewrite_file_lines(&idx, &name, &input).unwrap();
    assert_eq!(out, lines(&["let x: Foo = bar;"]));
}

#[test]
fn scenario_default_type_fill() {
    let idx = plan_pass(vec![record_with_child(
        "m.rs",
        1,
        "Default::default()",
        "expected `Bar`, found `<Bar>`",
    )])
    .unwrap();
    let name = String::from("m.rs");
    let input = lines(&["let x = Default::default();"]);
    let out = rewrite_file_lines(&idx, &name, &input).unwrap();
    assert_eq!(out, lines(&["let x = Bar::default();"]));
}

#[test]
fn scenario_nothing_to_migrate_stops_early() {
    let idx = plan_pass(vec![]).unwrap();
    assert!(idx.is_empty());
    assert!(should_stop_early(&idx, 0));
    assert!(!should_stop_early(&idx, 1));
}

#[test]
fn a_found_target_does_not_stop_the_run() {
    let idx = plan_pass(vec![record("a.rs", 1, "x.pack()", "")]).unwrap();
    assert!(!should_stop_early(&idx, 0));
}

#[test]
fn default_line_without_child_is_fatal() {
    let idx = plan_pass(vec![record("m.rs", 1, "Default::default()", "")]).unwrap();
    let name = String::from("m.rs");
    let input = lines(&["let x = Default::default();"]);
    assert_eq!(
        rewrite_file_lines(&idx, &name, &input),
        Err(MigrateError::MissingChildMessage)
    );
}

#[test]
fn default_line_without_capture_is_fatal() {
    let idx = plan_pass(vec![record_with_child(
        "m.rs",
        1,
        "Default::default()",
        "no brackets in this hint",
    )])
    .unwrap();
    let name = String::from("m.rs");
    let input = lines(&["let x = Default::default();"]);
    assert_eq!(
        rewrite_file_lines(&idx, &name, &input),
        Err(MigrateError::MissingTypeCapture)
    );
}

#[test]
fn stale_diagnostic_leaves_line_alone() {
    // The diagnostic was classified on span text, but the rule is chosen
    // from the line's own current text; a line already cleaned is kept.
    let rec = record("m.rs", 1, "bar.pack()", "");
    let out = rewrite_line(&String::from("let x: Foo = bar;"), &rec).unwrap();
    assert_eq!(out, "let x: Foo = bar;");
}

fn fixed_point_diags() -> Vec<DiagnosticRecord> {
    vec![
        record("m.rs", 1, "bar.pack().into()", ""),
        record_with_child("m.rs", 2, "Default::default()", "use `<Baz>`"),
    ]
}

#[test]
fn migrated_tree_is_a_fixed_point() {
    let name = String::from("m.rs");
    let input = lines(&["let x: Foo = bar.pack().into();", "let y = Default::default();"]);
    let idx = plan_pass(fixed_point_diags()).unwrap();
    let once = rewrite_file_lines(&idx, &name, &input).unwrap();
    assert_eq!(once, lines(&["let x: Foo = bar;", "let y = Baz::default();"]));
    // A second full pass: the checker reports nothing on the migrated
    // tree, so nothing is indexed and every file is left alone.
    let idx2 = plan_pass(vec![]).unwrap();
    assert!(idx2.is_empty());
    let twice = rewrite_file_lines(&idx2, &name, &once).unwrap();
    assert_eq!(twice, once);
    // Even under the stale first-pass index the migrated lines are clean.
    let idx3 = plan_pass(fixed_point_diags()).unwrap();
    let again = rewrite_file_lines(&idx3, &name, &once).unwrap();
    assert_eq!(again, once);
}

#[test]
fn file_names_come_out_once_each() {
    let idx = plan_pass(vec![
        record("a.rs", 1, "x.pack()", ""),
        record("a.rs", 2, "y.into()", ""),
        record("b.rs", 1, "z.unpack()", ""),
    ])
    .unwrap();
    let names = idx.file_names();
    assert_eq!(names, lines(&["a.rs", "b.rs"]));
}
