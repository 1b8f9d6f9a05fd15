//! Decoding the external compiler's JSON diagnostics and attributing them
//! to segments, exercised with the real JSON decoder.

use evcxr_core::code_block::{from_original_user_code, CodeKind};
use evcxr_core::diag::{origin_of_output_line, parse_compiler_message};
use evcxr_core::session::{on_compile_failure, RetryBudget};
use evcxr_core::synth::{CompilationMode, SynthesizedUnit};
use evcxr_core::{Config, ContextState, RetryDecision, TypeName};

/// The 1-based output line numbers of the unit whose origin satisfies the
/// predicate.
fn lines_matching(unit: &SynthesizedUnit, pred: impl Fn(&CodeKind) -> bool) -> Vec<usize> {
    let total = unit.code.code_string().matches('\n').count();
    let mut out = Vec::new();
    for line in 1..=total {
        let origin = origin_of_output_line(&unit.code, line);
        if pred(&origin.kind) {
            out.push(line);
        }
    }
    out
}

fn diag_line(code: &str, message: &str, line: usize) -> String {
    let mut out = String::new();
    out.push_str("{\"message\":\"");
    out.push_str(message);
    out.push_str("\",\"code\":{\"code\":\"");
    out.push_str(code);
    out.push_str("\",\"explanation\":null},\"level\":\"error\",\"spans\":[");
    out.push_str(&span_json("lib.rs", line, ""));
    out.push_str("],\"children\":[]}");
    out
}

fn span_json(file: &str, line: usize, extra: &str) -> String {
    format!(
        "{{\"file_name\":\"{file}\",\"line_start\":{line},\"line_end\":{line},\"column_start\":1,\"column_end\":5,\"is_primary\":true,\"label\":\"\"{extra}}}"
    )
}

fn diag_json(code: &str, message: &str, spans: &str, children: &str) -> String {
    format!(
        "{{\"message\":\"{message}\",\"code\":{{\"code\":\"{code}\"}},\"level\":\"error\",\"spans\":[{spans}],\"children\":[{children}]}}"
    )
}

#[test]
fn moved_value_diagnostic_drives_the_auto_fix() {
    let mut state = ContextState::new(Config::new());
    state
        .record_variable("a", TypeName::Named("String".to_string()), false)
        .unwrap();
    state.commit_variables();
    let user_code = from_original_user_code("let b = a;\n");
    let unit = state.code_to_compile(user_code, CompilationMode::RunAndCatchPanics);
    let pack_lines = lines_matching(&unit, |k| matches!(k, CodeKind::PackVariable { .. }));
    // One unpack line and one pack line for the single variable.
    assert_eq!(pack_lines.len(), 2);
    let line = diag_line("E0382", "use of moved value: `a`", pack_lines[1]);
    let error = parse_compiler_message(&line, &unit.code).expect("a diagnostic");
    assert_eq!(error.code.as_deref(), Some("E0382"));
    assert!(error
        .code_origins
        .iter()
        .any(|o| matches!(&o.kind, CodeKind::PackVariable { variable_name } if variable_name == "a")));
    let mut budget = RetryBudget::new();
    match on_compile_failure(unit, vec![error], &mut state, &mut budget) {
        RetryDecision::Retry { .. } => {}
        other => panic!("expected a retry, got {other:?}"),
    }
    assert!(state.variables_and_types().is_empty());
}

#[test]
fn the_build_tool_envelope_is_unwrapped() {
    let state = ContextState::new(Config::new());
    let user_code = from_original_user_code("bad\n");
    let unit = state.code_to_compile(user_code, CompilationMode::NoCatch);
    let user_lines = lines_matching(&unit, |k| matches!(k, CodeKind::OriginalUserCode(_)));
    let inner = diag_line("E0425", "cannot find value `bad`", user_lines[0]);
    let wrapped = format!("{{\"reason\":\"compiler-message\",\"message\":{inner}}}");
    let error = parse_compiler_message(&wrapped, &unit.code).expect("a diagnostic");
    assert_eq!(error.code.as_deref(), Some("E0425"));
    assert_eq!(error.message, "cannot find value `bad`");
    assert!(error.is_from_user_code());
}

#[test]
fn summary_messages_are_dropped() {
    let state = ContextState::new(Config::new());
    let unit = state.code_to_compile(from_original_user_code("x\n"), CompilationMode::NoCatch);
    let line =
        "{\"message\":\"aborting due to 2 previous errors\",\"code\":null,\"level\":\"error\",\"spans\":[],\"children\":[]}";
    assert!(parse_compiler_message(line, &unit.code).is_none());
    assert!(parse_compiler_message("not json at all", &unit.code).is_none());
}

#[test]
fn variable_store_references_are_scrubbed_from_messages() {
    let state = ContextState::new(Config::new());
    let unit = state.code_to_compile(from_original_user_code("x\n"), CompilationMode::NoCatch);
    let line =
        "{\"message\":\"expected `;`, found `evcxr_variable_store`\",\"code\":null,\"level\":\"error\",\"spans\":[],\"children\":[]}";
    let error = parse_compiler_message(line, &unit.code).expect("a diagnostic");
    assert_eq!(error.message, "expected `;`, found <end of input>");
}

#[test]
fn child_with_user_origin_replaces_parent_without_one() {
    let state = ContextState::new(Config::new());
    let unit = state.code_to_compile(from_original_user_code("oops()\n"), CompilationMode::NoCatch);
    let user_lines = lines_matching(&unit, |k| matches!(k, CodeKind::OriginalUserCode(_)));
    let generated_lines = lines_matching(&unit, |k| matches!(k, CodeKind::OtherGeneratedCode));
    let child = diag_json("E0001", "inner message", &span_json("lib.rs", user_lines[0], ""), "");
    let line = diag_json(
        "E0000",
        "outer message",
        &span_json("lib.rs", generated_lines[0], ""),
        &child,
    );
    let error = parse_compiler_message(&line, &unit.code).expect("a diagnostic");
    assert_eq!(error.message, "inner message");
    assert_eq!(error.code.as_deref(), Some("E0001"));
    assert!(error.is_from_user_code());
}

#[test]
fn expansion_chains_resolve_to_the_local_file() {
    let state = ContextState::new(Config::new());
    let unit = state.code_to_compile(from_original_user_code("m!()\n"), CompilationMode::NoCatch);
    let user_lines = lines_matching(&unit, |k| matches!(k, CodeKind::OriginalUserCode(_)));
    let inner_span = span_json("lib.rs", user_lines[0], "");
    let expansion = format!(",\"expansion\":{{\"span\":{inner_span}}}");
    let outer_span = span_json("<macros>", 1, &expansion);
    let line = diag_json("E0999", "macro error", &outer_span, "");
    let error = parse_compiler_message(&line, &unit.code).expect("a diagnostic");
    assert!(error.is_from_user_code());
}
