//! The `remove` subcommand.

use jiji_activities::remove;
use jiji_activities::error::{CliError, Failure, MalformedResponseSource};
use jiji_activities::flow::{Progress, Step};
use jiji_activities::ipc::{Action, ActivityReferenceArg, IpcError, Request, Response};
use jiji_activities::resume::resume_reply;
use std::collections::VecDeque;

/// A compositor that expects given requests, in order, and gives fixed replies.
struct MockClient {
    queue: VecDeque<(Request, Result<Response, String>)>,
}

impl MockClient {
    fn new() -> Self {
        MockClient { queue: VecDeque::new() }
    }

    fn expect(&mut self, request: Request, reply: Result<Response, String>) {
        self.queue.push_back((request, reply));
    }

    fn send(&mut self, request: Request) -> Result<Response, IpcError> {
        let (expected, reply) = self
            .queue
            .pop_front()
            .unwrap_or_else(|| panic!("unexpected request: {request:?}"));
        assert_eq!(request, expected, "another request was expected");
        reply.map_err(IpcError::Server)
    }

    fn assert_consumed_in_order(&self) {
        assert!(self.queue.is_empty(), "requests not sent: {:?}", self.queue);
    }
}

/// Carries out the steps of a subcommand until it is over.
fn drive(
    progress: Progress,
    client: &mut MockClient,
) -> Result<(), Failure> {
    let mut progress = progress;
    loop {
        let Progress { scope, step, .. } = progress;
        progress = match step {
            Step::Send { request, then } => {
                let reply = client.send(request);
                let shown = match &reply {
                    Ok(response) => format!("{response:?}"),
                    Err(_) => String::new(),
                };
                resume_reply(scope, then, reply, &shown)
            }
            Step::Finish { outcome } => return outcome,
            other => panic!("unexpected step: {other:?}"),
        };
    }
}

fn run(client: &mut MockClient, name: &str) -> Result<(), Failure> {
    drive(remove::run(name.to_owned()), client)
}

fn remove_req(name: &str) -> Request {
    Request::Action(Action::RemoveActivity {
        activity: ActivityReferenceArg::Name(name.to_owned()),
    })
}

#[test]
fn remove_dispatches_action_with_name_arg() {
    let mut client = MockClient::new();
    client.expect(remove_req("Work"), Ok(Response::Handled));
    run(&mut client, "Work").expect("remove succeeds on Handled");
    client.assert_consumed_in_order();
}

#[test]
fn remove_unknown_name_maps_to_activity_not_found_66() {
    let mut client = MockClient::new();
    client.expect(remove_req("Work"), Err("activity not found".to_owned()));
    let err = run(&mut client, "Work").expect_err("unknown activity must fail");
    let cli_err = err.typed_cause()
        .expect("CliError must be in chain");
    match cli_err {
        CliError::ActivityNotFound(name) => assert_eq!(name, "Work"),
        other => panic!("expected ActivityNotFound, got {other:?}"),
    }
    assert_eq!(cli_err.exit_code(), 66);
    client.assert_consumed_in_order();
}

#[test]
fn remove_config_declared_routes_to_malformed_server() {
    let mut client = MockClient::new();
    client.expect(
        remove_req("Work"),
        Err("activity is config-declared; edit config and reload to remove".to_owned()),
    );
    let err = run(&mut client, "Work").expect_err("config-declared must fail");
    let cli_err = err.typed_cause()
        .expect("CliError must be in chain");
    match cli_err {
        CliError::MalformedResponse(MalformedResponseSource::Server(msg)) => {
            assert_eq!(
                msg,
                "activity is config-declared; edit config and reload to remove"
            );
        }
        other => panic!("expected MalformedResponse(Server), got {other:?}"),
    }
    assert_eq!(cli_err.exit_code(), 65);
    client.assert_consumed_in_order();
}

#[test]
fn remove_last_activity_routes_to_malformed_server() {
    let mut client = MockClient::new();
    client.expect(
        remove_req("Work"),
        Err("cannot remove the last remaining activity".to_owned()),
    );
    let err = run(&mut client, "Work").expect_err("last-activity must fail");
    let cli_err = err.typed_cause()
        .expect("CliError must be in chain");
    match cli_err {
        CliError::MalformedResponse(MalformedResponseSource::Server(msg)) => {
            assert_eq!(msg, "cannot remove the last remaining activity");
        }
        other => panic!("expected MalformedResponse(Server), got {other:?}"),
    }
    assert_eq!(cli_err.exit_code(), 65);
    client.assert_consumed_in_order();
}

#[test]
fn remove_workspace_has_windows_routes_to_malformed_server() {
    let mut client = MockClient::new();
    client.expect(
        remove_req("Work"),
        Err(
            "activity owns an exclusive workspace with windows; close or move them first"
                .to_owned(),
        ),
    );
    let err = run(&mut client, "Work").expect_err("workspace-has-windows must fail");
    let cli_err = err.typed_cause()
        .expect("CliError must be in chain");
    match cli_err {
        CliError::MalformedResponse(MalformedResponseSource::Server(msg)) => {
            assert_eq!(
                msg,
                "activity owns an exclusive workspace with windows; close or move them first",
            );
        }
        other => panic!("expected MalformedResponse(Server), got {other:?}"),
    }
    assert_eq!(cli_err.exit_code(), 65);
    client.assert_consumed_in_order();
}

#[test]
fn remove_wrong_response_variant_is_malformed() {
    let mut client = MockClient::new();
    client.expect(remove_req("Work"), Ok(Response::Version("v".into())));
    let err = run(&mut client, "Work").expect_err("wrong variant must fail");
    let cli_err = err.typed_cause()
        .expect("CliError must be in chain");
    match cli_err {
        CliError::MalformedResponse(MalformedResponseSource::WrongVariant {
            expected,
            got,
        }) => {
            assert_eq!(*expected, "Response::Handled");
            assert_eq!(got, "Response::Version");
        }
        other => panic!("expected WrongVariant, got {other:?}"),
    }
    assert_eq!(cli_err.exit_code(), 65);
    client.assert_consumed_in_order();
}

#[test]
fn remove_preserves_context_in_error_chain() {
    let mut client = MockClient::new();
    client.expect(remove_req("Work"), Err("activity not found".to_owned()));
    let err = run(&mut client, "Work").expect_err("must fail");
    let formatted = err.describe();
    assert!(
        formatted.contains("removing activity"),
        "context layer missing from chain: {formatted}",
    );
    assert!(
        formatted.contains("no such activity: Work"),
        "ActivityNotFound Display missing from chain: {formatted}",
    );
    client.assert_consumed_in_order();
}
