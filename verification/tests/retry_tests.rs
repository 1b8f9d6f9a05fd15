//! The retry controller: classification, fixups and the bounded loop.

use evcxr_core::code_block::{from_original_user_code, CodeBlock, CodeKind};
use evcxr_core::errors::{CodeOrigin, CompilationError};
use evcxr_core::fixups::classify_origin;
use evcxr_core::protocol::ExecutionTracker;
use evcxr_core::session::{finish_execution, on_compile_failure, on_variables_lost, RetryBudget};
use evcxr_core::synth::CompilationMode;
use evcxr_core::{Config, ContextState, Error, FixupAction, RetryDecision, Session, TypeName};

fn error_with(code: Option<&str>, message: &str, origins: Vec<CodeOrigin>) -> CompilationError {
    CompilationError {
        message: message.to_string(),
        code: code.map(str::to_string),
        explanation: None,
        level: "error".to_string(),
        code_origins: origins,
        spanned_messages: Vec::new(),
        spanned_helps: Vec::new(),
        rendered: None,
    }
}

fn pack_origin(name: &str) -> CodeOrigin {
    CodeOrigin {
        kind: CodeKind::PackVariable {
            variable_name: name.to_string(),
        },
        segment_index: None,
    }
}

fn user_origin() -> CodeOrigin {
    CodeOrigin {
        kind: CodeKind::OtherUserCode,
        segment_index: None,
    }
}

#[test]
fn moved_value_on_pack_variable_drops_it() {
    let err = error_with(Some("E0382"), "use of moved value", vec![pack_origin("a")]);
    match classify_origin(&err.code_origins[0], &err, false, false) {
        FixupAction::DropVariable(name) => assert_eq!(name, "a"),
        other => panic!("unexpected action {other:?}"),
    }
    let err = error_with(Some("E0425"), "cannot find value", vec![pack_origin("a")]);
    assert!(matches!(
        classify_origin(&err.code_origins[0], &err, false, false),
        FixupAction::DropVariable(_)
    ));
}

#[test]
fn private_and_non_persistable_types_are_hard_failures() {
    let err = error_with(Some("E0603"), "private type", vec![pack_origin("a")]);
    assert!(matches!(
        classify_origin(&err.code_origins[0], &err, false, false),
        FixupAction::FailPrivateType(_)
    ));
    let err = error_with(Some("E0562"), "impl trait", vec![pack_origin("a")]);
    assert!(matches!(
        classify_origin(&err.code_origins[0], &err, false, false),
        FixupAction::FailNonPersistable(_)
    ));
    // An untagged error whose single origin is the pack variable.
    let err = error_with(None, "mismatched types", vec![pack_origin("a")]);
    assert!(matches!(
        classify_origin(&err.code_origins[0], &err, false, false),
        FixupAction::FailNonPersistable(_)
    ));
}

#[test]
fn await_outside_async_enables_async_mode_once() {
    let err = error_with(Some("E0728"), "await outside async fn", vec![user_origin()]);
    assert!(matches!(
        classify_origin(&err.code_origins[0], &err, false, false),
        FixupAction::EnableAsyncMode
    ));
    assert!(matches!(
        classify_origin(&err.code_origins[0], &err, true, false),
        FixupAction::NoFix
    ));
}

#[test]
fn question_mark_conversion_flips_the_permissive_flag_once() {
    let err = error_with(Some("E0277"), "the trait is not satisfied", vec![user_origin()]);
    assert!(matches!(
        classify_origin(&err.code_origins[0], &err, false, false),
        FixupAction::AllowQuestionMark
    ));
    assert!(matches!(
        classify_origin(&err.code_origins[0], &err, false, true),
        FixupAction::NoFix
    ));
}

#[test]
fn experimental_let_suggests_missing_semicolon() {
    let err = error_with(
        Some("E0658"),
        "`let` expressions in this position are experimental",
        vec![user_origin()],
    );
    assert!(matches!(
        classify_origin(&err.code_origins[0], &err, false, false),
        FixupAction::FailMissingSemicolon
    ));
    let err = error_with(Some("E0658"), "some other experimental thing", vec![user_origin()]);
    assert!(matches!(
        classify_origin(&err.code_origins[0], &err, false, false),
        FixupAction::NoFix
    ));
}

#[test]
fn moved_variable_is_dropped_and_retried_without_caller_help() {
    let mut state = ContextState::new(Config::new());
    state
        .record_variable("a", TypeName::Named("String".to_string()), false)
        .unwrap();
    state.commit_variables();
    let user_code = from_original_user_code("let b = a;\n");
    let unit = state.code_to_compile(user_code, CompilationMode::RunAndCatchPanics);
    let errors = vec![error_with(
        Some("E0382"),
        "use of moved value: `a`",
        vec![pack_origin("a")],
    )];
    let mut budget = RetryBudget::new();
    match on_compile_failure(unit, errors, &mut state, &mut budget) {
        RetryDecision::Retry { user_code } => {
            assert!(!user_code.is_empty());
        }
        other => panic!("expected a retry, got {other:?}"),
    }
    assert_eq!(budget.remaining, 4);
    // The moved variable is gone from later listings.
    assert!(state
        .variables_and_types()
        .iter()
        .all(|(name, _)| name != "a"));
}

#[test]
fn question_mark_fix_persists_for_later_submissions() {
    let mut session = Session::new(Config::new());
    let mut state = session.working_copy();
    let user_code = from_original_user_code("do_fallible()?;\n");
    let unit = state.code_to_compile(user_code, CompilationMode::RunAndCatchPanics);
    let errors = vec![error_with(
        Some("E0277"),
        "the `?` operator can only be used...",
        vec![user_origin()],
    )];
    let mut budget = RetryBudget::new();
    assert!(matches!(
        on_compile_failure(unit, errors, &mut state, &mut budget),
        RetryDecision::Retry { .. }
    ));
    assert!(state.allow_question_mark);
    // The retried attempt succeeds and commits; the flag stays set.
    session.commit(state);
    assert!(session.committed.allow_question_mark);
    assert!(session.working_copy().allow_question_mark);
}

#[test]
fn exhausted_budget_reports_the_original_errors() {
    let mut state = ContextState::new(Config::new());
    state
        .record_variable("x", TypeName::Named("i32".to_string()), false)
        .unwrap();
    state.commit_variables();
    let stored_before = state.stored_variable_states.len();
    let mut budget = RetryBudget::new();
    budget.remaining = 0;
    let user_code = from_original_user_code("x = ();\n");
    let unit = state.code_to_compile(user_code, CompilationMode::RunAndCatchPanics);
    let errors = vec![error_with(
        Some("E0308"),
        "mismatched types",
        vec![user_origin()],
    )];
    match on_compile_failure(unit, errors, &mut state, &mut budget) {
        RetryDecision::CleanRecompileThenReport { errors, .. } => {
            assert_eq!(errors.len(), 1);
            assert_eq!(errors[0].message, "mismatched types");
        }
        other => panic!("expected the clean recompile path, got {other:?}"),
    }
    // A failed submission never alters the stored variable states.
    assert_eq!(state.stored_variable_states.len(), stored_before);
}

#[test]
fn follow_on_noise_is_suppressed_when_user_errors_exist() {
    let mut state = ContextState::new(Config::new());
    let mut budget = RetryBudget::new();
    budget.remaining = 0;
    let user_code = from_original_user_code("bad();\n");
    let unit = state.code_to_compile(user_code, CompilationMode::RunAndCatchPanics);
    let generated_origin = CodeOrigin {
        kind: CodeKind::OtherGeneratedCode,
        segment_index: None,
    };
    let errors = vec![
        error_with(Some("E0000"), "noise", vec![generated_origin]),
        error_with(Some("E0308"), "real problem", vec![user_origin()]),
    ];
    match on_compile_failure(unit, errors, &mut state, &mut budget) {
        RetryDecision::CleanRecompileThenReport { errors, .. } => {
            assert_eq!(errors.len(), 1);
            assert_eq!(errors[0].message, "real problem");
        }
        other => panic!("expected the clean recompile path, got {other:?}"),
    }
}

#[test]
fn fallback_segment_is_swapped_on_its_origin() {
    let mut state = ContextState::new(Config::new());
    let fallback = CodeBlock::new().other_user_code("// fallback body\n".to_string());
    let user_code = CodeBlock::new().code_with_fallback("use broken::path;\n".to_string(), fallback);
    let unit = state.code_to_compile(user_code, CompilationMode::RunAndCatchPanics);
    let fallback_index = unit.prelude_len;
    let origin = CodeOrigin {
        kind: CodeKind::WithFallback(CodeBlock::new()),
        segment_index: Some(fallback_index),
    };
    let errors = vec![error_with(Some("E0432"), "unresolved import", vec![origin])];
    let mut budget = RetryBudget::new();
    match on_compile_failure(unit, errors, &mut state, &mut budget) {
        RetryDecision::Retry { user_code } => {
            assert_eq!(user_code.segments.len(), 1);
            assert_eq!(user_code.segments[0].code, "// fallback body\n");
        }
        other => panic!("expected a retry, got {other:?}"),
    }
}

#[test]
fn hard_failures_touch_nothing() {
    // A hard failure anywhere ends the attempt before any fixup applies:
    // the droppable variable survives.
    let mut state = ContextState::new(Config::new());
    state
        .record_variable("a", TypeName::Named("String".to_string()), false)
        .unwrap();
    state.commit_variables();
    let user_code = from_original_user_code("let b = a;\n");
    let unit = state.code_to_compile(user_code, CompilationMode::RunAndCatchPanics);
    let errors = vec![
        error_with(Some("E0382"), "use of moved value: `a`", vec![pack_origin("a")]),
        error_with(Some("E0603"), "private type", vec![pack_origin("a")]),
    ];
    let mut budget = RetryBudget::new();
    match on_compile_failure(unit, errors, &mut state, &mut budget) {
        RetryDecision::Fail { error } => match error {
            Error::Message(m) => assert!(m.contains("private")),
            other => panic!("unexpected error {other:?}"),
        },
        other => panic!("expected a hard failure, got {other:?}"),
    }
    assert!(state.variable_states.get("a").is_some());
    assert_eq!(budget.remaining, 5);
}

#[test]
fn panic_without_preserve_loses_every_variable() {
    let mut state = ContextState::new(Config::new());
    state.config.preserve_vars_on_panic = false;
    state
        .record_variable("kept", TypeName::Named("i32".to_string()), false)
        .unwrap();
    state.commit_variables();
    let mut t = ExecutionTracker::new();
    t.process_line("EVCXR_PANIC_NOTIFICATION");
    finish_execution(t, &mut state).unwrap();
    assert!(state.variables_and_types().is_empty());
}

#[test]
fn lost_variables_are_dropped_from_both_states() {
    let mut session = Session::new(Config::new());
    let mut working = session.working_copy();
    working
        .record_variable("a", TypeName::Named("i32".to_string()), false)
        .unwrap();
    working
        .record_variable("b", TypeName::Named("i32".to_string()), false)
        .unwrap();
    session.commit(working);
    let mut working = session.working_copy();
    let mut budget = RetryBudget::new();
    let lost = vec!["a".to_string()];
    let retry = on_variables_lost(&lost, &mut working, &mut session.committed, &mut budget);
    assert!(retry);
    assert!(working.variable_states.get("a").is_none());
    assert!(session.committed.variable_states.get("a").is_none());
    assert!(session.committed.stored_variable_states.get("a").is_none());
    assert!(working.variable_states.get("b").is_some());
}

#[test]
fn finished_execution_routes_panics_losses_and_success() {
    // A panic keeps the available variable, drops the new one.
    let mut state = ContextState::new(Config::new());
    state
        .record_variable("kept", TypeName::Named("i32".to_string()), false)
        .unwrap();
    state.commit_variables();
    state
        .record_variable("fresh", TypeName::Named("i32".to_string()), false)
        .unwrap();
    let mut t = ExecutionTracker::new();
    t.process_line("EVCXR_PANIC_NOTIFICATION");
    t.process_line("EVCXR_EXECUTION_COMPLETE");
    let out = finish_execution(t, &mut state).unwrap();
    assert!(out.is_empty());
    assert!(state.variable_states.get("kept").is_some());
    assert!(state.variable_states.get("fresh").is_none());

    // Lost variables surface as the retryable error.
    let mut t = ExecutionTracker::new();
    t.process_line("EVCXR_VARIABLE_CHANGED_TYPE:v");
    match finish_execution(t, &mut state) {
        Err(Error::TypeRedefinedVariablesLost(names)) => {
            assert_eq!(names, vec!["v".to_string()]);
        }
        other => panic!("expected lost variables, got {other:?}"),
    }
}
