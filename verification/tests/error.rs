//! Failures, their exit codes and how they are told.

use jiji_activities::error::{
    Cause,
    CliError,
    Failure,
    IoFailure,
    IoKind,
    MalformedResponseSource,
    is_stdout_pipe_closed,
    map_exit,
};
use jiji_activities::ipc::Response;

fn sample_io_error() -> IoFailure {
    IoFailure { kind: IoKind::NotFound, message: "ENOENT".to_owned() }
}

fn sample_decode_error() -> String {
    serde_json::from_str::<()>("not json")
        .expect_err("malformed JSON must fail to deserialize as ()")
        .to_string()
}

#[test]
fn usage_is_64() {
    assert_eq!(CliError::Usage("nope".into()).exit_code(), 64);
}

#[test]
fn malformed_response_is_65() {
    assert_eq!(
        CliError::MalformedResponse(MalformedResponseSource::Decode(sample_decode_error()))
            .exit_code(),
        65,
    );
}

#[test]
fn activity_not_found_is_66() {
    assert_eq!(CliError::ActivityNotFound("work".into()).exit_code(), 66);
}

#[test]
fn socket_unavailable_is_69() {
    assert_eq!(
        CliError::SocketUnavailable(sample_io_error()).exit_code(),
        69,
    );
}

#[test]
fn not_implemented_is_70() {
    assert_eq!(CliError::NotImplemented("switch").exit_code(), 70);
}

#[test]
fn cant_create_is_73() {
    assert_eq!(CliError::CantCreate("dup name".into()).exit_code(), 73);
}

#[test]
fn untyped_fallback_is_1() {
    let err = Failure { contexts: Vec::new(), cause: Cause::Message("untyped".to_owned()) };
    assert_eq!(map_exit(&err), 1);
}

#[test]
fn socket_unavailable_survives_context_wrap() {
    let base = Failure::new(CliError::SocketUnavailable(sample_io_error()));
    let wrapped = base.context("connecting to $NIRI_SOCKET");
    let recovered = wrapped.typed_cause()
        .expect("CliError must remain downcastable through .context wrap");
    assert!(matches!(recovered, CliError::SocketUnavailable(_)));
    assert_eq!(map_exit(&wrapped), 69);
}

#[test]
fn cli_error_survives_context_wrap_in_alternate_format() {
    let base = Failure::new(CliError::SocketUnavailable(sample_io_error()));
    let wrapped = base.context("connecting to $NIRI_SOCKET");
    let formatted = wrapped.describe();
    assert!(
        formatted.contains("connecting to $NIRI_SOCKET"),
        "context layer missing from: {formatted}",
    );
    assert!(
        formatted.contains("ENOENT"),
        "source layer missing from: {formatted}",
    );
}

#[test]
fn is_stdout_pipe_closed_matches_output_pipe_closed() {
    let err = Failure::new(CliError::OutputPipeClosed);
    assert!(
        is_stdout_pipe_closed(&err),
        "bare OutputPipeClosed must be detected",
    );
}

#[test]
fn is_stdout_pipe_closed_matches_through_context_wrap() {
    let err = Failure::new(CliError::OutputPipeClosed).context("flushing stdout");
    assert!(
        is_stdout_pipe_closed(&err),
        "OutputPipeClosed wrapped by .context() must still be detected",
    );
}

#[test]
fn is_stdout_pipe_closed_does_not_match_raw_broken_pipe_io_error() {
    let io_err = IoFailure { kind: IoKind::BrokenPipe, message: "ipc pipe".to_owned() };
    let err = Failure { contexts: Vec::new(), cause: Cause::Io(io_err) };
    assert!(
        !is_stdout_pipe_closed(&err),
        "raw BrokenPipe io::Error must not be suppressed",
    );
}

#[test]
fn is_stdout_pipe_closed_does_not_match_socket_unavailable() {
    let io_err = IoFailure { kind: IoKind::BrokenPipe, message: "socket broken".to_owned() };
    let err = Failure::new(CliError::SocketUnavailable(io_err));
    assert!(
        !is_stdout_pipe_closed(&err),
        "SocketUnavailable(BrokenPipe) must not be suppressed",
    );
}

#[test]
fn is_stdout_pipe_closed_does_not_match_other_cli_errors() {
    let err = Failure::new(CliError::NotImplemented("test"));
    assert!(
        !is_stdout_pipe_closed(&err),
        "unrelated CliError must not be suppressed",
    );
}

#[test]
fn every_failure_has_its_exit_code() {
    let cases = vec![
        (CliError::Usage("x".to_owned()), 64),
        (
            CliError::MalformedResponse(MalformedResponseSource::Server("x".to_owned())),
            65,
        ),
        (
            CliError::MalformedResponse(MalformedResponseSource::WrongVariant {
                expected: "Response::Handled",
                got: "Response::Version".to_owned(),
            }),
            65,
        ),
        (CliError::ActivityNotFound("x".to_owned()), 66),
        (CliError::SocketUnavailable(sample_io_error()), 69),
        (CliError::PickerUnavailable(sample_io_error()), 69),
        (CliError::NotImplemented("x"), 70),
        (CliError::CantCreate("x".to_owned()), 73),
        (CliError::ConfigEdit(sample_io_error()), 73),
        (CliError::OutputPipeClosed, 0),
    ];
    for (error, code) in cases {
        assert_eq!(error.exit_code(), code, "{error:?}");
        let failure = Failure::new(error).context("inner").context("outer");
        assert_eq!(map_exit(&failure), code);
    }
}

#[test]
fn a_failure_is_told_from_the_outside_in() {
    let failure = Failure::new(CliError::ActivityNotFound("Work".to_owned()))
        .context("inner")
        .context("outer");
    assert_eq!(failure.describe(), "outer: inner: no such activity: Work");
}
