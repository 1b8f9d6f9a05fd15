//! The worker line protocol and the execution tracker.

use evcxr_core::protocol::{
    classify_worker_line, load_and_run_command, user_fn_name, ExecutionTracker,
};
use evcxr_core::{LineAction, WorkerLine};

#[test]
fn sentinel_lines_are_classified_whole() {
    assert!(matches!(
        classify_worker_line("EVCXR_EXECUTION_COMPLETE"),
        WorkerLine::ExecutionComplete
    ));
    assert!(matches!(
        classify_worker_line("EVCXR_PANIC_NOTIFICATION"),
        WorkerLine::PanicNotification
    ));
    assert!(matches!(
        classify_worker_line("EVCXR_ERROR_OCCURRED"),
        WorkerLine::ErrorOccurred
    ));
    assert!(matches!(
        classify_worker_line("EVCXR_END_CONTENT"),
        WorkerLine::EndContent
    ));
    assert!(matches!(
        classify_worker_line("ordinary output"),
        WorkerLine::Plain
    ));
    // A sentinel with trailing text is not the sentinel.
    assert!(matches!(
        classify_worker_line("EVCXR_EXECUTION_COMPLETE now"),
        WorkerLine::Plain
    ));
}

#[test]
fn variable_changed_marker_carries_the_name() {
    match classify_worker_line("EVCXR_VARIABLE_CHANGED_TYPE:foo") {
        WorkerLine::VariableChangedType(name) => assert_eq!(name, "foo"),
        other => panic!("unexpected classification {other:?}"),
    }
}

#[test]
fn begin_content_marker_carries_the_mime_type() {
    match classify_worker_line("EVCXR_BEGIN_CONTENT text/html") {
        WorkerLine::BeginContent(mime) => assert_eq!(mime, "text/html"),
        other => panic!("unexpected classification {other:?}"),
    }
}

#[test]
fn input_request_carries_prompt_and_password_flag() {
    match classify_worker_line("EVCXR_REQUEST_INPUT:Name") {
        WorkerLine::InputRequest {
            prompt,
            is_password,
        } => {
            assert_eq!(prompt, "Name");
            assert!(!is_password);
        }
        other => panic!("unexpected classification {other:?}"),
    }
    match classify_worker_line("EVCXR_REQUEST_INPUT_PASSWORD:Secret") {
        WorkerLine::InputRequest {
            prompt,
            is_password,
        } => {
            assert_eq!(prompt, "Secret");
            assert!(is_password);
        }
        other => panic!("unexpected classification {other:?}"),
    }
}

#[test]
fn load_and_run_line_has_path_and_symbol() {
    assert_eq!(
        load_and_run_command("/tmp/build/libunit.so", "run_user_code_3"),
        "LOAD_AND_RUN /tmp/build/libunit.so run_user_code_3"
    );
    assert_eq!(user_fn_name(0), "run_user_code_0");
    assert_eq!(user_fn_name(42), "run_user_code_42");
}

#[test]
fn tracker_collects_a_content_block() {
    let mut t = ExecutionTracker::new();
    assert!(matches!(
        t.process_line("EVCXR_BEGIN_CONTENT text/plain"),
        LineAction::Continue
    ));
    assert!(matches!(t.process_line("42"), LineAction::Continue));
    assert!(matches!(
        t.process_line("EVCXR_END_CONTENT"),
        LineAction::Continue
    ));
    assert!(matches!(
        t.process_line("EVCXR_EXECUTION_COMPLETE"),
        LineAction::Done
    ));
    assert_eq!(t.outputs.get("text/plain").unwrap(), "42");
    assert!(!t.got_panic);
}

#[test]
fn tracker_joins_block_lines_with_newlines() {
    let mut t = ExecutionTracker::new();
    t.process_line("EVCXR_BEGIN_CONTENT text/plain");
    t.process_line("first");
    t.process_line("second");
    t.process_line("EVCXR_END_CONTENT");
    assert_eq!(t.outputs.get("text/plain").unwrap(), "first\nsecond");
}

#[test]
fn panic_mid_block_ends_it_early_and_keeps_content() {
    let mut t = ExecutionTracker::new();
    t.process_line("EVCXR_BEGIN_CONTENT text/plain");
    t.process_line("partial");
    t.process_line("EVCXR_PANIC_NOTIFICATION");
    assert!(t.got_panic);
    assert!(!t.in_content);
    assert_eq!(t.outputs.get("text/plain").unwrap(), "partial");
}

#[test]
fn tracker_records_lost_variables_and_errors() {
    let mut t = ExecutionTracker::new();
    t.process_line("EVCXR_VARIABLE_CHANGED_TYPE:a");
    t.process_line("EVCXR_VARIABLE_CHANGED_TYPE:b");
    t.process_line("EVCXR_ERROR_OCCURRED");
    assert_eq!(t.lost_variables, vec!["a".to_string(), "b".to_string()]);
    assert!(t.error_occurred);
}

#[test]
fn plain_lines_are_forwarded() {
    let mut t = ExecutionTracker::new();
    assert!(matches!(t.process_line("hello"), LineAction::Forward));
    match t.process_line("EVCXR_REQUEST_INPUT:Your name") {
        LineAction::NeedInput {
            prompt,
            is_password,
        } => {
            assert_eq!(prompt, "Your name");
            assert!(!is_password);
        }
        other => panic!("unexpected action {other:?}"),
    }
}
