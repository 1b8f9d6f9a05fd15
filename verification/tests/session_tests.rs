//! Whole-submission scenarios: split, synthesize, simulated compile and
//! run, commit.

use evcxr_core::code_block::{from_original_user_code, CodeKind};
use evcxr_core::commands::{run_command, CommandEffect};
use evcxr_core::protocol::ExecutionTracker;
use evcxr_core::session::finish_execution;
use evcxr_core::synth::CompilationMode;
use evcxr_core::StatementInfo;
use evcxr_core::{Config, LineAction, Session, TypeName};

/// Run one submission against a session: record what the analyzer would
/// have said about new variables, synthesize the unit, pretend the compiler
/// succeeded and feed the given worker lines, then commit.
fn submit(session: &mut Session, code: &str, vars: &[(&str, &str, bool)], worker_lines: &[&str]) -> evcxr_core::EvalOutputs {
    let mut working = session.working_copy();
    let user_code = from_original_user_code(code);
    for (name, ty, is_mut) in vars {
        working
            .record_variable(name, TypeName::Named(ty.to_string()), *is_mut)
            .unwrap();
    }
    let unit = working.code_to_compile(user_code, CompilationMode::RunAndCatchPanics);
    assert!(unit.code.code_string().contains(code.trim_end()));
    working.bump_build_num();
    let mut tracker = ExecutionTracker::new();
    for line in worker_lines {
        if matches!(tracker.process_line(line), LineAction::Done) {
            break;
        }
    }
    let outputs = finish_execution(tracker, &mut working).unwrap();
    session.commit(working);
    outputs
}

#[test]
fn arithmetic_across_submissions_displays_the_sum() {
    let mut session = Session::new(Config::new());
    submit(
        &mut session,
        "let mut a = 34; let b = 8;",
        &[("a", "i32", true), ("b", "i32", false)],
        &["EVCXR_EXECUTION_COMPLETE"],
    );
    assert_eq!(
        session.committed.variables_and_types(),
        vec![
            ("a".to_string(), "i32".to_string()),
            ("b".to_string(), "i32".to_string())
        ]
    );
    submit(
        &mut session,
        "a = a + b;",
        &[],
        &["EVCXR_EXECUTION_COMPLETE"],
    );
    let outputs = submit(
        &mut session,
        "a",
        &[],
        &[
            "EVCXR_BEGIN_CONTENT text/plain",
            "42",
            "EVCXR_END_CONTENT",
            "EVCXR_EXECUTION_COMPLETE",
        ],
    );
    assert_eq!(outputs.get("text/plain").unwrap(), "42");
    assert_eq!(
        session.committed.variables_and_types(),
        vec![
            ("a".to_string(), "i32".to_string()),
            ("b".to_string(), "i32".to_string())
        ]
    );
}

#[test]
fn functions_defined_across_submissions_accumulate() {
    let mut session = Session::new(Config::new());
    // The first submission defines `bar`; the analyzer reports the item.
    let mut working = session.working_copy();
    working.record_item("bar", "pub fn bar() -> i32 { 42 }");
    session.commit(working);
    // The second defines `foo` calling `bar` and asserts on it.
    let mut working = session.working_copy();
    working.record_item("foo", "pub fn foo() -> i32 { bar() }");
    let user_code = from_original_user_code("assert_eq!(foo(), 42)\n");
    let unit = working.code_to_compile(user_code, CompilationMode::RunAndCatchPanics);
    // The accumulated items are re-emitted ahead of the new code.
    let text = unit.code.code_string();
    let bar_at = text.find("pub fn bar").unwrap();
    let new_code_at = text.find("assert_eq!").unwrap();
    assert!(bar_at < new_code_at);
    session.commit(working);
    assert_eq!(
        session.committed.defined_item_names(),
        vec!["bar".to_string(), "foo".to_string()]
    );
}

#[test]
fn synthesized_unit_packs_every_variable() {
    let mut session = Session::new(Config::new());
    let mut working = session.working_copy();
    working
        .record_variable("a", TypeName::Named("i32".to_string()), true)
        .unwrap();
    session.commit(working);
    let working = session.working_copy();
    let unit = working.code_to_compile(from_original_user_code("a;\n"), CompilationMode::RunAndCatchPanics);
    let text = unit.code.code_string();
    assert!(text.contains("let mut a: i32 = evcxr_variable_store.take_variable(\"a\");"));
    assert!(text.contains("evcxr_variable_store.put_variable(\"a\", a);"));
    // The user's own segments sit untouched at the stated offset.
    let seg = &unit.code.segments[unit.prelude_len];
    assert!(matches!(seg.kind, CodeKind::OriginalUserCode(_)));
    assert_eq!(seg.code, "a;\n");
}

#[test]
fn catch_mode_wraps_and_no_catch_does_not() {
    let session = Session::new(Config::new());
    let working = session.working_copy();
    let caught = working
        .code_to_compile(from_original_user_code("1;\n"), CompilationMode::RunAndCatchPanics)
        .code
        .code_string();
    let working = session.working_copy();
    let plain = working
        .code_to_compile(from_original_user_code("1;\n"), CompilationMode::NoCatch)
        .code
        .code_string();
    assert!(caught.contains("catch_panics"));
    assert!(!plain.contains("catch_panics"));
}

#[test]
fn flipped_flags_change_the_synthesized_wrapper() {
    let session = Session::new(Config::new());
    let mut working = session.working_copy();
    let plain = working
        .code_to_compile(from_original_user_code("1;\n"), CompilationMode::RunAndCatchPanics)
        .code
        .code_string();
    assert!(!plain.contains("handle_question_mark"));
    assert!(!plain.contains("block_on_async"));
    working.allow_question_mark = true;
    working.async_mode = true;
    let permissive = working
        .code_to_compile(from_original_user_code("1;\n"), CompilationMode::RunAndCatchPanics)
        .code
        .code_string();
    assert!(permissive.contains("handle_question_mark"));
    assert!(permissive.contains("block_on_async"));
    // The broader wrapper formats early-returned errors with the session's
    // error format.
    assert!(permissive.contains("handle_question_mark(\"{}\", || {"));
    working.config.set_error_format("{:?}").unwrap();
    let debug_fmt = working
        .code_to_compile(from_original_user_code("1;\n"), CompilationMode::RunAndCatchPanics)
        .code
        .code_string();
    assert!(debug_fmt.contains("handle_question_mark(\"{:?}\", || {"));
}

#[test]
fn final_expression_is_displayed_when_enabled() {
    let session = Session::new(Config::new());
    let working = session.working_copy();
    let block = from_original_user_code("a\n");
    let block = working.append_final_expression_display(block, "a");
    let text = working
        .code_to_compile(block, CompilationMode::RunAndCatchPanics)
        .code
        .code_string();
    assert!(text.contains("send_text_plain(&format!(\"{:?}\", &(a)));"));
}

#[test]
fn commands_run_against_the_working_state() {
    let mut session = Session::new(Config::new());
    let mut working = session.working_copy();
    match run_command(&mut working, ":dep", &Some("serde = \"1\"".to_string())).unwrap() {
        CommandEffect::Output(o) => assert!(o.is_empty()),
        other => panic!("unexpected effect {other:?}"),
    }
    assert_eq!(working.external_deps.get("serde").unwrap(), "\"1\"");
    assert!(matches!(
        run_command(&mut working, ":clear", &None).unwrap(),
        CommandEffect::Clear
    ));
    assert!(run_command(&mut working, ":nonsense", &None).is_err());
    session.commit(working);
    let manifest = evcxr_core::cargo_manifest(&session.committed);
    assert!(manifest.contains("[dependencies]\nserde = \"1\"\n"));
}

#[test]
fn vars_command_lists_bindings() {
    let mut session = Session::new(Config::new());
    let mut working = session.working_copy();
    working
        .record_variable("a", TypeName::Named("i32".to_string()), false)
        .unwrap();
    match run_command(&mut working, ":vars", &None).unwrap() {
        CommandEffect::Output(o) => {
            assert_eq!(o.get("text/plain").unwrap(), "a: i32\n");
            assert_eq!(
                o.get("text/html").unwrap(),
                "<table><tr><th>Variable</th><th>Type</th></tr><tr><td>a</td><td>i32</td></tr></table>"
            );
        }
        other => panic!("unexpected effect {other:?}"),
    }
}

#[test]
fn applying_statements_records_items_and_displays_the_tail() {
    let mut session = Session::new(Config::new());
    let mut working = session.working_copy();
    let infos = vec![
        StatementInfo::NamedItem {
            name: "helper".to_string(),
            text: "fn helper() {}".to_string(),
        },
        StatementInfo::ImportNamed {
            name: "Ordering".to_string(),
            code: "use core::cmp::Ordering;".to_string(),
        },
        StatementInfo::Statement,
        StatementInfo::TailExpression {
            text: "helper()".to_string(),
        },
    ];
    let user_code = from_original_user_code("fn helper() {}\nuse core::cmp::Ordering;\nhelper()\n");
    let applied = working.apply(user_code, &infos);
    assert_eq!(
        working.defined_item_names(),
        vec!["helper".to_string(), "Ordering".to_string()]
    );
    // The trailing bare expression gained a display segment.
    let text = applied.code_string();
    assert!(text.contains("send_text_plain(&format!(\"{:?}\", &(helper())));"));
    session.commit(working);
}

#[test]
fn empty_state_manifest_is_exactly_the_header() {
    let session = Session::new(Config::new());
    let manifest = evcxr_core::cargo_manifest(&session.committed);
    assert_eq!(
        manifest,
        "[package]\nname = \"evaluation_unit\"\nversion = \"0.0.0\"\nedition = \"2021\"\n\n[lib]\ncrate-type = [\"cdylib\"]\npath = \"lib.rs\"\n\n[dependencies]\n"
    );
}

#[test]
fn build_invocation_reflects_configuration() {
    let mut session = Session::new(Config::new());
    let mut working = session.working_copy();
    working.config.set_opt_level("0").unwrap();
    working.config.offline_mode = true;
    session.commit(working);
    let inv = evcxr_core::build_invocation(&session.committed, true);
    assert!(inv.check_only);
    assert!(inv.offline);
    assert_eq!(inv.opt_level, "0");
}
