//! The state snapshot: recording variables, committing, and the panic and
//! crash policies.

use evcxr_core::commands::run_command;
use evcxr_core::{Config, ContextState, Session, TypeName, VariableMoveState};

fn fresh_state() -> ContextState {
    ContextState::new(Config::new())
}

fn stored_names(state: &ContextState) -> Vec<String> {
    let mut out = Vec::new();
    let n = state.stored_variable_states.len();
    for i in 0..n {
        out.push(state.stored_variable_states.entry_at(i).name.clone());
    }
    out
}

#[test]
fn record_variable_marks_new_and_keeps_type() {
    let mut state = fresh_state();
    state
        .record_variable("a", TypeName::Named("i32".to_string()), true)
        .unwrap();
    let v = state.variable_states.get("a").unwrap();
    assert_eq!(v.var_type, "i32");
    assert!(v.is_mut);
    assert_eq!(v.move_state, VariableMoveState::New);
}

#[test]
fn record_variable_rejects_closures_and_unknown_types() {
    let mut state = fresh_state();
    assert!(state.record_variable("f", TypeName::Closure, false).is_err());
    assert!(state.record_variable("g", TypeName::Unknown, false).is_err());
    assert!(state.variable_states.get("f").is_none());
    assert!(state.variable_states.get("g").is_none());
}

#[test]
fn record_existing_variable_keeps_mutability_and_state() {
    let mut state = fresh_state();
    state
        .record_variable("a", TypeName::Named("i32".to_string()), true)
        .unwrap();
    state.commit_variables();
    // The second submission refreshes the type only.
    state
        .record_variable("a", TypeName::Named("i32".to_string()), false)
        .unwrap();
    let v = state.variable_states.get("a").unwrap();
    assert!(v.is_mut, "mutability survives a type refresh");
    assert_eq!(v.move_state, VariableMoveState::Available);
}

#[test]
fn committing_twice_is_idempotent() {
    let mut state = fresh_state();
    state
        .record_variable("a", TypeName::Named("i32".to_string()), true)
        .unwrap();
    state
        .record_variable("b", TypeName::Named("String".to_string()), false)
        .unwrap();
    state.commit_variables();
    let first = stored_names(&state);
    let first_types: Vec<String> = state
        .variables_and_types()
        .into_iter()
        .map(|(_, t)| t)
        .collect();
    state.commit_variables();
    assert_eq!(stored_names(&state), first);
    let second_types: Vec<String> = state
        .variables_and_types()
        .into_iter()
        .map(|(_, t)| t)
        .collect();
    assert_eq!(second_types, first_types);
}

#[test]
fn persisted_variable_keeps_type_and_mutability_across_submissions() {
    let mut session = Session::new(Config::new());
    // First submission defines `a`.
    let mut working = session.working_copy();
    working
        .record_variable("a", TypeName::Named("i32".to_string()), true)
        .unwrap();
    session.commit(working);
    // Second submission references `a` without redefining it.
    let working = session.working_copy();
    session.commit(working);
    let vars = session.committed.variables_and_types();
    assert_eq!(vars, vec![("a".to_string(), "i32".to_string())]);
    let v = session.committed.variable_states.get("a").unwrap();
    assert!(v.is_mut);
    assert_eq!(v.move_state, VariableMoveState::Available);
}

#[test]
fn panic_drops_only_new_variables() {
    let mut state = fresh_state();
    state
        .record_variable("kept", TypeName::Named("i32".to_string()), false)
        .unwrap();
    state.commit_variables();
    state
        .record_variable("lost", TypeName::Named("i32".to_string()), false)
        .unwrap();
    state.drop_new_variables();
    assert!(state.variable_states.get("kept").is_some());
    assert!(state.variable_states.get("lost").is_none());
}

#[test]
fn time_passes_command_sets_the_flag() {
    let mut state = fresh_state();
    assert!(!state.config.time_passes);
    run_command(&mut state, ":time_passes", &Some("1".to_string())).unwrap();
    assert!(state.config.time_passes);
    run_command(&mut state, ":time_passes", &Some("0".to_string())).unwrap();
    assert!(!state.config.time_passes);
}

#[test]
fn worker_crash_empties_variables_and_session_recovers() {
    let mut session = Session::new(Config::new());
    let mut working = session.working_copy();
    working
        .record_variable("a", TypeName::Named("i32".to_string()), false)
        .unwrap();
    session.commit(working);
    session.on_worker_crash();
    assert_eq!(session.committed.variables_and_types(), vec![]);
    assert_eq!(session.committed.stored_variable_states.len(), 0);
    // A subsequent unrelated submission succeeds against a consistent state.
    let mut working = session.working_copy();
    working
        .record_variable("b", TypeName::Named("u8".to_string()), false)
        .unwrap();
    session.commit(working);
    assert_eq!(
        session.committed.variables_and_types(),
        vec![("b".to_string(), "u8".to_string())]
    );
}

#[test]
fn clear_forgets_state_but_keeps_configuration() {
    let mut session = Session::new(Config::new());
    let mut working = session.working_copy();
    working.config.set_opt_level("0").unwrap();
    working
        .record_variable("a", TypeName::Named("i32".to_string()), false)
        .unwrap();
    working.record_item("foo", "fn foo() {}");
    session.commit(working);
    session.clear();
    assert_eq!(session.committed.variables_and_types(), vec![]);
    assert_eq!(session.committed.defined_item_names(), Vec::<String>::new());
    assert_eq!(session.committed.config.opt_level, "0");
}

#[test]
fn defined_item_names_keep_registration_order() {
    let mut state = fresh_state();
    state.record_item("bar", "pub fn bar() -> i32 { 42 }");
    state.record_item("foo", "pub fn foo() -> i32 { bar() }");
    assert_eq!(
        state.defined_item_names(),
        vec!["bar".to_string(), "foo".to_string()]
    );
    // Redefinition replaces the earlier text without duplicating the name.
    state.record_item("bar", "pub fn bar() -> i32 { 43 }");
    assert_eq!(
        state.defined_item_names(),
        vec!["foo".to_string(), "bar".to_string()]
    );
}

#[test]
fn error_format_accepts_only_the_table() {
    let mut config = Config::new();
    assert!(config.set_error_format("{}").is_ok());
    assert_eq!(config.error_fmt_index, 0);
    assert!(config.set_error_format("{:?}").is_ok());
    assert_eq!(config.error_fmt_index, 1);
    assert!(config.set_error_format("{:#?}").is_ok());
    assert_eq!(config.error_fmt_index, 2);
    assert!(config.set_error_format("{:x}").is_err());
    assert_eq!(config.error_fmt_index, 2, "a rejected format changes nothing");
}

#[test]
fn opt_level_rejects_empty() {
    let mut config = Config::new();
    assert!(config.set_opt_level("").is_err());
    assert_eq!(config.opt_level, "2");
    assert!(config.set_opt_level("3").is_ok());
    assert_eq!(config.opt_level, "3");
}

#[test]
fn dependency_changes_can_fail_compilation() {
    let a = fresh_state();
    let mut b = a.duplicate();
    assert!(!a.state_change_can_fail_compilation(&b));
    b.add_dep("serde", "\"1\"");
    assert!(a.state_change_can_fail_compilation(&b));
}
