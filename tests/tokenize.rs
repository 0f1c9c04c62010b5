use uiua_docs::highlight::{
    binding_class, build_code_lines, modifier_class, prim_sig_class, sig_class, span_class, with_context,
};
use uiua_docs::tokenize::{
    build_code_lines_from, BindingDocsKind, ClassifiedSpan, CodeFragment, PrimitiveInfo, SpanCategory,
};

fn graphemes(v: &[&str]) -> Vec<String> {
    v.iter().map(|s| s.to_string()).collect()
}

fn plain(f: &CodeFragment) -> Option<&str> {
    match f {
        CodeFragment::Unspanned(s) => Some(s.as_str()),
        _ => None,
    }
}

#[test]
fn blank_line_without_spans_gives_three_lines() {
    let lines = build_code_lines_from(&graphemes(&["a", "\n", "\n", "b"]), &vec![], 3).frags;
    assert_eq!(lines.len(), 3);
    assert_eq!(lines[0].len(), 1);
    assert_eq!(plain(&lines[0][0]), Some("a"));
    assert_eq!(lines[1].len(), 1);
    assert!(matches!(lines[1][0], CodeFragment::Br));
    assert_eq!(lines[2].len(), 1);
    assert_eq!(plain(&lines[2][0]), Some("b"));
}

#[test]
fn spans_split_plain_text() {
    let spans = vec![ClassifiedSpan { start: 1, end: 2, kind: SpanCategory::Number }];
    let lines = build_code_lines_from(&graphemes(&["a", "1", "b", "c"]), &spans, 1).frags;
    assert_eq!(lines.len(), 1);
    assert_eq!(lines[0].len(), 3);
    assert_eq!(plain(&lines[0][0]), Some("a"));
    assert!(matches!(&lines[0][1], CodeFragment::Span(t, SpanCategory::Number) if t == "1"));
    assert_eq!(plain(&lines[0][2]), Some("bc"));
}

#[test]
fn multiline_span_gives_one_fragment_per_line() {
    let spans = vec![ClassifiedSpan { start: 0, end: 3, kind: SpanCategory::String }];
    let lines = build_code_lines_from(&graphemes(&["x", "\n", "y"]), &spans, 5).frags;
    assert_eq!(lines.len(), 2);
    assert!(matches!(&lines[0][0], CodeFragment::Span(t, SpanCategory::String) if t == "x"));
    assert!(matches!(&lines[1][0], CodeFragment::Span(t, SpanCategory::String) if t == "y"));
}

#[test]
fn newline_only_span_gives_line_breaks() {
    let spans = vec![ClassifiedSpan { start: 1, end: 3, kind: SpanCategory::Other }];
    let lines = build_code_lines_from(&graphemes(&["a", "\n", "\n", "b"]), &spans, 10).frags;
    assert_eq!(lines.len(), 3);
    assert!(matches!(lines[1][0], CodeFragment::Br));
    assert_eq!(plain(&lines[2][0]), Some("b"));
}

#[test]
fn only_the_last_lines_are_kept() {
    let lines = build_code_lines_from(&graphemes(&["a", "\n", "b", "\n", "c"]), &vec![], 2).frags;
    assert_eq!(lines.len(), 2);
    assert_eq!(plain(&lines[0][0]), Some("b"));
    assert_eq!(plain(&lines[1][0]), Some("c"));
}

#[test]
fn code_is_tokenized_after_its_context() {
    let text = with_context("", "ab");
    assert_eq!(text, "\n\nab");
    let spans = vec![ClassifiedSpan { start: 3, end: 4, kind: SpanCategory::Number }];
    let lines = build_code_lines("ab", "", &spans).frags;
    assert_eq!(lines.len(), 1);
    assert_eq!(lines[0].len(), 2);
    assert_eq!(plain(&lines[0][0]), Some("a"));
    assert!(matches!(&lines[0][1], CodeFragment::Span(t, SpanCategory::Number) if t == "b"));
}

#[test]
fn combining_marks_stay_in_one_grapheme() {
    let code = "e\u{301}x";
    let spans = vec![ClassifiedSpan { start: 3, end: 4, kind: SpanCategory::Number }];
    let lines = build_code_lines(code, "", &spans).frags;
    assert_eq!(lines.len(), 1);
    assert_eq!(plain(&lines[0][0]), Some("e\u{301}"));
    assert!(matches!(&lines[0][1], CodeFragment::Span(t, _) if t == "x"));
}

#[test]
fn class_names() {
    assert_eq!(modifier_class(0), "binding monadic-modifier");
    assert_eq!(modifier_class(2), "binding dyadic-modifier");
    assert_eq!(modifier_class(5), "binding triadic-modifier");
    assert_eq!(sig_class(0), "binding noadic-function");
    assert_eq!(sig_class(4), "binding tetradic-function");
    assert_eq!(sig_class(5), "binding");
    assert_eq!(binding_class(BindingDocsKind::Constant), "binding constant");
    assert_eq!(binding_class(BindingDocsKind::Module), "binding module");
    assert_eq!(binding_class(BindingDocsKind::Error), "output-error");
    assert_eq!(span_class(SpanCategory::Comment), "comment-span");
    assert_eq!(span_class(SpanCategory::ArgSetter), "binding monadic-function");
    assert_eq!(span_class(SpanCategory::Ident(None)), "");
    assert_eq!(span_class(SpanCategory::Ident(Some(BindingDocsKind::Function(2)))), "binding dyadic-function");
    let stack = PrimitiveInfo { identity: false, stack_or_debug: true, constant: false, modifier_args: None, args: Some(1) };
    assert_eq!(prim_sig_class(stack), "stack-function");
    let modifier = PrimitiveInfo { identity: false, stack_or_debug: false, constant: false, modifier_args: Some(2), args: None };
    assert_eq!(prim_sig_class(modifier), "binding dyadic-modifier");
    let constant = PrimitiveInfo { identity: false, stack_or_debug: false, constant: true, modifier_args: None, args: Some(0) };
    assert_eq!(prim_sig_class(constant), "number-literal");
}

#[test]
fn windows_line_ending_starts_a_new_line() {
    let lines = build_code_lines_from(&graphemes(&["a", "\r\n", "b"]), &vec![], 5).frags;
    assert_eq!(lines.len(), 2);
    assert_eq!(lines[0].len(), 1);
    assert_eq!(plain(&lines[0][0]), Some("a"));
    assert_eq!(lines[1].len(), 1);
    assert_eq!(plain(&lines[1][0]), Some("b"));
}

#[test]
fn windows_line_endings_through_segmentation() {
    let lines = build_code_lines("a\r\nb", "", &vec![]).frags;
    assert_eq!(lines.len(), 2);
    assert_eq!(plain(&lines[0][0]), Some("a"));
    assert_eq!(plain(&lines[1][0]), Some("b"));
    for line in &lines {
        for frag in line {
            if let CodeFragment::Unspanned(t) | CodeFragment::Span(t, _) = frag {
                assert!(!t.contains('\n'));
            }
        }
    }
}

#[test]
fn blank_windows_line_gives_line_break() {
    let lines = build_code_lines_from(&graphemes(&["a", "\r\n", "\r\n", "b"]), &vec![], 5).frags;
    assert_eq!(lines.len(), 3);
    assert!(matches!(lines[1][0], CodeFragment::Br));
}

#[test]
fn span_ending_in_bare_carriage_return_keeps_it() {
    let spans = vec![ClassifiedSpan { start: 0, end: 2, kind: SpanCategory::String }];
    let lines = build_code_lines_from(&graphemes(&["a", "\r"]), &spans, 5).frags;
    assert_eq!(lines.len(), 1);
    assert!(matches!(&lines[0][0], CodeFragment::Span(t, SpanCategory::String) if t == "a\r"));
}
