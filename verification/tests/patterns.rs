use gen_type_migrate::capture::extract_angle_capture;
use gen_type_migrate::pattern::{classify_line, PatternKind};
use gen_type_migrate::rewrite::replace_first_default;
use gen_type_migrate::strip::strip_call_chain;

#[test]
fn classify_pack_call() {
    let line = String::from("let x: Foo = bar.pack();");
    assert_eq!(classify_line(&line), PatternKind::CallChainStrip);
}

#[test]
fn classify_into_call() {
    let line = String::from("let x = a.into();");
    assert_eq!(classify_line(&line), PatternKind::CallChainStrip);
}

#[test]
fn classify_unpack_call() {
    let line = String::from("let n = field.unpack();");
    assert_eq!(classify_line(&line), PatternKind::CallChainStrip);
}

#[test]
fn classify_default_word() {
    let line = String::from("let x = Default::default();");
    assert_eq!(classify_line(&line), PatternKind::DefaultTypeFill);
}

#[test]
fn classify_prefers_call_chain() {
    let line = String::from("let x: Default = y.into();");
    assert_eq!(classify_line(&line), PatternKind::CallChainStrip);
}

#[test]
fn classify_plain_line() {
    let line = String::from("let x = 5;");
    assert_eq!(classify_line(&line), PatternKind::NoMatch);
}

#[test]
fn classify_needs_empty_parens() {
    let line = String::from("let x = a.into(b);");
    assert_eq!(classify_line(&line), PatternKind::NoMatch);
}

#[test]
fn strip_removes_every_suffix() {
    let line = String::from("let x: Foo = bar.pack().into();");
    assert_eq!(strip_call_chain(&line), "let x: Foo = bar;");
}

#[test]
fn strip_mixed_suffixes() {
    let line = String::from("a.unpack() + b.pack()");
    assert_eq!(strip_call_chain(&line), "a + b");
}

#[test]
fn strip_leaves_plain_line() {
    let line = String::from("no conversion calls here");
    assert_eq!(strip_call_chain(&line), "no conversion calls here");
}

#[test]
fn strip_twice_is_noop_on_clean_result() {
    let line = String::from("let x: Foo = bar.pack().into();");
    let once = strip_call_chain(&line);
    let twice = strip_call_chain(&once);
    assert_eq!(once, twice);
}

#[test]
fn strip_single_scan_can_splice_a_new_suffix() {
    // The scan removes the one suffix it finds in the original text; the
    // removal splices the surrounding text into a fresh suffix, which only
    // a second application removes.
    let line = String::from(".pack.pack()()");
    let once = strip_call_chain(&line);
    assert_eq!(once, ".pack()");
    assert_eq!(strip_call_chain(&once), "");
}

#[test]
fn capture_simple_type() {
    let msg = String::from("expected `Bar`, found `<Bar>`");
    assert_eq!(extract_angle_capture(&msg), Some(String::from("Bar")));
}

#[test]
fn capture_is_greedy_to_last_bracket() {
    let msg = String::from("a <B> c <D> e");
    assert_eq!(extract_angle_capture(&msg), Some(String::from("B> c <D")));
}

#[test]
fn capture_without_brackets() {
    let msg = String::from("no suggestion in this text");
    assert_eq!(extract_angle_capture(&msg), None);
}

#[test]
fn capture_does_not_cross_line_breaks() {
    let msg = String::from("x <a\nb> <c>");
    assert_eq!(extract_angle_capture(&msg), Some(String::from("c")));
}

#[test]
fn capture_empty_brackets() {
    let msg = String::from("just <>");
    assert_eq!(extract_angle_capture(&msg), Some(String::from("")));
}

#[test]
fn replace_fills_captured_type() {
    let line = String::from("let x = Default::default();");
    let ty = String::from("Bar");
    assert_eq!(replace_first_default(&line, &ty), "let x = Bar::default();");
}

#[test]
fn replace_touches_only_first_occurrence() {
    let line = String::from("Default and Default");
    let ty = String::from("X");
    assert_eq!(replace_first_default(&line, &ty), "X and Default");
}

#[test]
fn replace_without_the_word() {
    let line = String::from("let x = 5;");
    let ty = String::from("X");
    assert_eq!(replace_first_default(&line, &ty), "let x = 5;");
}
