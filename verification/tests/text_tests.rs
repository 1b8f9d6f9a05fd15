//! String utilities, output merging and error helpers.

use evcxr_core::commands::parse_dep_args;
use evcxr_core::errors::{retain_user_errors, sanitize_message, str_replace, CodeOrigin, CompilationError};
use evcxr_core::code_block::CodeKind;
use evcxr_core::text::{split_lines, str_contains, str_ends_with, str_starts_with, u64_to_string};
use evcxr_core::{str_eq, EvalOutputs};

#[test]
fn string_comparisons_are_character_wise() {
    assert!(str_eq("abc", "abc"));
    assert!(!str_eq("abc", "abd"));
    assert!(!str_eq("abc", "ab"));
    assert!(str_starts_with("abcdef", "abc"));
    assert!(!str_starts_with("ab", "abc"));
    assert!(str_ends_with("lib.rs", ".rs"));
    assert!(!str_ends_with("lib.rc", ".rs"));
    assert!(str_contains("the quick fox", "quick"));
    assert!(!str_contains("the quick fox", "slow"));
    assert!(str_contains("anything", ""));
}

#[test]
fn decimal_rendering_is_exact() {
    assert_eq!(u64_to_string(0), "0");
    assert_eq!(u64_to_string(7), "7");
    assert_eq!(u64_to_string(42), "42");
    assert_eq!(u64_to_string(1000000007), "1000000007");
}

#[test]
fn replace_handles_multiple_occurrences() {
    assert_eq!(str_replace("aXbXc", "X", "--"), "a--b--c");
    assert_eq!(str_replace("aaa", "aa", "b"), "ba");
    assert_eq!(str_replace("abc", "x", "y"), "abc");
    assert_eq!(
        sanitize_message("expected `;`, found `evcxr_variable_store`"),
        "expected `;`, found <end of input>"
    );
}

#[test]
fn lines_split_and_rejoin_exactly() {
    assert_eq!(split_lines(""), Vec::<String>::new());
    assert_eq!(split_lines("a\nb\n"), vec!["a", "b"]);
    assert_eq!(split_lines("a\nb"), vec!["a", "b"]);
    assert_eq!(split_lines("\n"), vec![""]);
    assert_eq!(split_lines("a\n\nb\n"), vec!["a", "", "b"]);
}

#[test]
fn dep_arguments_split_into_name_and_config() {
    assert_eq!(
        parse_dep_args("serde"),
        Some(("serde".to_string(), "\"*\"".to_string()))
    );
    assert_eq!(
        parse_dep_args("serde = \"1\""),
        Some(("serde".to_string(), "\"1\"".to_string()))
    );
    assert_eq!(
        parse_dep_args("tokio = { version = \"1\" }"),
        Some(("tokio".to_string(), "{ version = \"1\" }".to_string()))
    );
    assert_eq!(parse_dep_args(""), None);
}

fn error_with_origin(message: &str, kind: CodeKind) -> CompilationError {
    CompilationError {
        message: message.to_string(),
        code: None,
        explanation: None,
        level: "error".to_string(),
        code_origins: vec![CodeOrigin {
            kind,
            segment_index: None,
        }],
        spanned_messages: Vec::new(),
        spanned_helps: Vec::new(),
        rendered: None,
    }
}

#[test]
fn user_attributed_errors_suppress_the_rest() {
    let errors = vec![
        error_with_origin("from generated", CodeKind::OtherGeneratedCode),
        error_with_origin("from user", CodeKind::OtherUserCode),
        error_with_origin("unknown", CodeKind::Unknown),
    ];
    let kept = retain_user_errors(errors);
    assert_eq!(kept.len(), 1);
    assert_eq!(kept[0].message, "from user");
}

#[test]
fn without_user_errors_everything_is_kept() {
    let errors = vec![
        error_with_origin("from generated", CodeKind::OtherGeneratedCode),
        error_with_origin("unknown", CodeKind::Unknown),
    ];
    let kept = retain_user_errors(errors);
    assert_eq!(kept.len(), 2);
}

#[test]
fn session_specific_hints_go_by_diagnostic_code() {
    let mut e = error_with_origin("borrowed value does not live long enough", CodeKind::OtherUserCode);
    e.code = Some("E0597".to_string());
    assert!(e.extra_hint().is_some());
    assert!(e.mutability_note().is_none());
    e.code = Some("E0384".to_string());
    assert!(e.extra_hint().is_none());
    assert!(e.mutability_note().is_some());
    e.code = Some("E0596".to_string());
    assert!(e.mutability_note().is_some());
    e.code = None;
    assert!(e.extra_hint().is_none());
}

#[test]
fn outputs_merge_concatenates_shared_mime_types() {
    let mut a = EvalOutputs::text_html("first", "<p>first</p>");
    let b = EvalOutputs::text_html("+second", "<p>second</p>");
    a.merge(&b);
    assert_eq!(a.get("text/plain").unwrap(), "first+second");
    assert_eq!(a.get("text/html").unwrap(), "<p>first</p><p>second</p>");
    assert_eq!(a.get("image/png"), None);
}

#[test]
fn command_errors_span_the_arguments() {
    let block = evcxr_core::code_block::from_original_user_code(":opt banana\n");
    let seg = &block.segments[0];
    let call = match &seg.kind {
        CodeKind::Command(c) => c,
        other => panic!("expected a command, got {other:?}"),
    };
    let e = evcxr_core::command_error(seg, call, "bad level".to_string());
    assert_eq!(e.message, "bad level");
    let span = e.spanned_messages[0].span.unwrap();
    // The span starts at the first non-space character after the first
    // space: column 6 of `:opt banana`. It ends at the segment's last
    // column, the newline included.
    assert_eq!(span.start_line, 1);
    assert_eq!(span.start_column, 6);
    assert_eq!(span.end_column, 12);
    assert_eq!(e.spanned_messages[0].lines, vec![":opt banana"]);
}

#[test]
fn filled_lines_cover_the_span() {
    let mut e = error_with_origin("boom", CodeKind::OtherUserCode);
    e.spanned_messages.push(evcxr_core::SpannedMessage {
        span: Some(evcxr_core::Span {
            start_line: 2,
            start_column: 1,
            end_line: 3,
            end_column: 4,
        }),
        label: "here".to_string(),
        is_primary: true,
        lines: Vec::new(),
    });
    let original = vec!["one".to_string(), "two".to_string(), "three".to_string()];
    e.fill_lines(&original);
    assert_eq!(e.spanned_messages[0].lines, vec!["two", "three"]);
}
