//! The menu with one choice.

use jiji_activities::error::{CliError, IoFailure, IoKind};
use jiji_activities::picker::{NameOutcome, PickerOutcome};
use jiji_activities::picker::single_select::{
    FileFacts,
    PICKER_MISSING_MESSAGE,
    PathEntry,
    classify_name,
    classify_output,
    ensure_available,
    is_executable_file,
    items_to_payload,
    which_in_path,
};

fn outcome(success: bool, stdout: &[u8]) -> PickerOutcome {
    classify_output(success, stdout).outcome
}

fn failing(kind: IoKind) -> IoFailure {
    IoFailure { kind, message: "cannot look".to_owned() }
}

fn program(mode: u32) -> PathEntry {
    Some(Ok(FileFacts { is_file: true, mode }))
}

fn absent() -> PathEntry {
    Some(Err(failing(IoKind::NotFound)))
}

#[test]
fn single_select_which_in_path_finds_common_shell_utility() {
    which_in_path("sh", Some(vec![absent(), program(0o755)])).expect("sh is there");
}

#[test]
fn single_select_which_in_path_missing_returns_not_found() {
    let err = which_in_path("definitely-not-a-real-binary-xyz123", Some(vec![absent(), None]))
        .expect_err("missing binary must not be found");
    assert_eq!(err.kind, IoKind::NotFound);
    assert_eq!(err.message, "definitely-not-a-real-binary-xyz123: not found on $PATH");
}

#[test]
fn picker_which_in_path_finds_common_shell_utility() {
    which_in_path("sh", Some(vec![program(0o644), program(0o755)])).expect("sh is there");
}

#[test]
fn picker_which_in_path_missing_returns_not_found() {
    let err = which_in_path("definitely-not-a-real-binary-xyz123", Some(vec![]))
        .expect_err("missing binary must not be found");
    assert_eq!(err.kind, IoKind::NotFound);
}

#[test]
fn which_in_path_without_a_path_is_not_found() {
    let err = which_in_path("sh", None).expect_err("there is nowhere to look");
    assert_eq!(err.kind, IoKind::NotFound);
    assert_eq!(err.message, "$PATH is unset");
}

#[test]
fn which_in_path_propagates_permission_denied() {
    let path = vec![Some(Err(failing(IoKind::PermissionDenied)))];
    let err = which_in_path("anything", Some(path)).expect_err("must surface");
    assert_eq!(err.kind, IoKind::PermissionDenied);
}

#[test]
fn which_in_path_short_circuits_before_later_match() {
    let path = vec![Some(Err(failing(IoKind::PermissionDenied))), program(0o755)];
    let err = which_in_path("anything", Some(path)).expect_err("must stop at the problem");
    assert_eq!(err.kind, IoKind::PermissionDenied);
}

#[test]
fn is_executable_file_propagates_non_not_found() {
    let err = is_executable_file(Err(failing(IoKind::PermissionDenied))).expect_err("must surface");
    assert_eq!(err.kind, IoKind::PermissionDenied);
}

#[test]
fn is_executable_file_missing_path_is_ok_false() {
    assert!(!is_executable_file(Err(failing(IoKind::NotFound))).expect("no failure"));
}

#[test]
fn is_executable_file_non_executable_is_ok_false() {
    let facts = FileFacts { is_file: true, mode: 0o644 };
    assert!(!is_executable_file(Ok(facts)).expect("no failure"));
    let directory = FileFacts { is_file: false, mode: 0o755 };
    assert!(!is_executable_file(Ok(directory)).expect("no failure"));
}

#[test]
fn ensure_available_not_found_synthesises_canonical_message() {
    match ensure_available(Err(failing(IoKind::NotFound))) {
        Err(CliError::PickerUnavailable(io)) => {
            assert_eq!(io.kind, IoKind::NotFound);
            assert_eq!(io.message, PICKER_MISSING_MESSAGE);
        }
        other => panic!("expected PickerUnavailable, got {other:?}"),
    }
}

#[test]
fn ensure_available_preserves_non_not_found_verbatim() {
    match ensure_available(Err(failing(IoKind::PermissionDenied))) {
        Err(CliError::PickerUnavailable(io)) => {
            assert_eq!(io.kind, IoKind::PermissionDenied);
            assert_eq!(io.message, "cannot look");
        }
        other => panic!("expected PickerUnavailable, got {other:?}"),
    }
    assert!(ensure_available(Ok(())).is_ok());
}

#[test]
fn odd_answers_are_told() {
    let told = classify_output(false, b"Wo\"rk\n").note.expect("a note");
    assert_eq!(
        told,
        "niri-activities: fuzzel exited non-zero with stdout \"Wo\\\"rk\" (treating as cancellation)",
    );
    let told = classify_output(true, b" \n").note.expect("a note");
    assert_eq!(
        told,
        "niri-activities: fuzzel exited 0 with empty stdout (treating as cancellation)",
    );
    assert!(classify_output(false, b"").note.is_none());
}

#[test]
fn bytes_that_are_no_text_are_replaced() {
    assert_eq!(outcome(true, b"W\xffk\n"), PickerOutcome::Selected("W\u{fffd}k".to_owned()));
}

#[test]
fn a_name_is_the_first_line() {
    assert_eq!(classify_name(true, b" Deep Work \n"), NameOutcome::Typed("Deep Work".to_owned()));
    assert_eq!(classify_name(true, b"\n"), NameOutcome::Unnamed);
    assert_eq!(classify_name(false, b"Work\n"), NameOutcome::Cancelled);
}

#[test]
fn single_select_classify_output_success_non_empty_is_selected() {
    match outcome(true, b"Work\n") {
        PickerOutcome::Selected(name) => assert_eq!(name, "Work"),
        PickerOutcome::Cancelled => panic!("expected Selected"),
    }
}

#[test]
fn single_select_classify_output_failure_empty_is_cancelled() {
    assert!(matches!(
        outcome(false, b""),
        PickerOutcome::Cancelled
    ));
}

#[test]
fn single_select_classify_output_success_empty_is_cancelled_defensive() {
    assert!(matches!(
        outcome(true, b""),
        PickerOutcome::Cancelled
    ));
}

#[test]
fn single_select_classify_output_failure_with_stdout_is_cancelled_defensive() {
    assert!(matches!(
        outcome(false, b"Work\n"),
        PickerOutcome::Cancelled
    ));
}

#[test]
fn single_select_classify_output_takes_first_line_only_and_trims() {
    match outcome(true, b"  Work  \nPersonal\n") {
        PickerOutcome::Selected(name) => assert_eq!(name, "Work"),
        PickerOutcome::Cancelled => panic!("expected Selected"),
    }
}

#[test]
fn single_select_items_to_payload_joins_and_terminates() {
    let items = vec![
        "Work".to_owned(),
        "Personal".to_owned(),
        "Gaming".to_owned(),
    ];
    assert_eq!(items_to_payload(&items), "Work\nPersonal\nGaming\n");
}

#[test]
fn single_select_items_to_payload_empty_is_empty_string() {
    assert_eq!(items_to_payload(&vec![]), "");
}

#[test]
fn picker_classify_output_success_non_empty_is_selected() {
    match outcome(true, b"Work\n") {
        PickerOutcome::Selected(name) => assert_eq!(name, "Work"),
        PickerOutcome::Cancelled => panic!("expected Selected"),
    }
}

#[test]
fn picker_classify_output_failure_empty_is_cancelled() {
    assert!(matches!(
        outcome(false, b""),
        PickerOutcome::Cancelled
    ));
}

#[test]
fn picker_classify_output_success_empty_is_cancelled_defensive() {
    assert!(matches!(
        outcome(true, b""),
        PickerOutcome::Cancelled
    ));
}

#[test]
fn picker_classify_output_failure_with_stdout_is_cancelled_defensive() {
    assert!(matches!(
        outcome(false, b"Work\n"),
        PickerOutcome::Cancelled
    ));
}

#[test]
fn picker_classify_output_takes_first_line_only_and_trims() {
    match outcome(true, b"  Work  \nPersonal\n") {
        PickerOutcome::Selected(name) => assert_eq!(name, "Work"),
        PickerOutcome::Cancelled => panic!("expected Selected"),
    }
}

#[test]
fn picker_items_to_payload_joins_and_terminates() {
    let items = vec![
        "Work".to_owned(),
        "Personal".to_owned(),
        "Gaming".to_owned(),
    ];
    assert_eq!(items_to_payload(&items), "Work\nPersonal\nGaming\n");
}

#[test]
fn picker_items_to_payload_empty_is_empty_string() {
    assert_eq!(items_to_payload(&vec![]), "");
}
