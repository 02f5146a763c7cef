//! The `create` subcommand.

use jiji_activities::create;
use jiji_activities::error::{CliError, Failure, MalformedResponseSource};
use jiji_activities::flow::{Progress, Step};
use jiji_activities::ipc::{Action, Activity, IpcError, Request, Response};
use jiji_activities::resume::resume_reply;
use std::collections::VecDeque;

/// A compositor that expects given requests, in order, and gives fixed replies.
struct MockClient {
    queue: VecDeque<(Request, Result<Response, String>)>,
}

impl MockClient {
    fn new() -> Self {
        MockClient { queue: VecDeque::new() }
    }

    fn expect(&mut self, request: Request, reply: Result<Response, String>) {
        self.queue.push_back((request, reply));
    }

    fn send(&mut self, request: Request) -> Result<Response, IpcError> {
        let (expected, reply) = self
            .queue
            .pop_front()
            .unwrap_or_else(|| panic!("unexpected request: {request:?}"));
        assert_eq!(request, expected, "another request was expected");
        reply.map_err(IpcError::Server)
    }

    fn assert_consumed_in_order(&self) {
        assert!(self.queue.is_empty(), "requests not sent: {:?}", self.queue);
    }
}

/// Carries out the steps of a subcommand until it is over.
fn drive(
    progress: Progress,
    client: &mut MockClient,
) -> Result<(), Failure> {
    let mut progress = progress;
    loop {
        let Progress { scope, step, .. } = progress;
        progress = match step {
            Step::Send { request, then } => {
                let reply = client.send(request);
                let shown = match &reply {
                    Ok(response) => format!("{response:?}"),
                    Err(_) => String::new(),
                };
                resume_reply(scope, then, reply, &shown)
            }
            Step::Finish { outcome } => return outcome,
            other => panic!("unexpected step: {other:?}"),
        };
    }
}

fn run(client: &mut MockClient, name: &str) -> Result<(), Failure> {
    drive(create::run(name.to_owned()), client)
}

fn create_req(name: &str) -> Request {
    Request::Action(Action::CreateActivity {
        name: name.to_owned(),
    })
}

#[test]
fn create_dispatches_action_with_name_arg() {
    let mut client = MockClient::new();
    client.expect(create_req("Work"), Ok(Response::Handled));
    run(&mut client, "Work").expect("create succeeds on Handled");
    client.assert_consumed_in_order();
}

#[test]
fn create_handled_is_ok() {
    let mut client = MockClient::new();
    client.expect(create_req("Work"), Ok(Response::Handled));
    run(&mut client, "Work").expect("Response::Handled must succeed");
    client.assert_consumed_in_order();
}

#[test]
fn create_name_already_exists_maps_to_cant_create_73() {
    let mut client = MockClient::new();
    client.expect(
        create_req("Work"),
        Err("activity name already exists".to_owned()),
    );
    let err = run(&mut client, "Work").expect_err("collision must fail");
    let cli_err = err.typed_cause()
        .expect("CliError must be in chain");
    match cli_err {
        CliError::CantCreate(msg) => {
            assert!(
                msg.contains("\"Work\""),
                "CantCreate message must quote-wrap the name; got: {msg}",
            );
            assert!(
                msg.contains("already exists"),
                "CantCreate message must explain the cause; got: {msg}",
            );
        }
        other => panic!("expected CantCreate, got {other:?}"),
    }
    assert_eq!(cli_err.exit_code(), 73);
    client.assert_consumed_in_order();
}

#[test]
fn create_name_must_not_be_empty_maps_to_usage_64() {
    let mut client = MockClient::new();
    client.expect(
        create_req("   "),
        Err("activity name must not be empty".to_owned()),
    );
    let err = run(&mut client, "   ").expect_err("empty-name must fail");
    let cli_err = err.typed_cause()
        .expect("CliError must be in chain");
    match cli_err {
        CliError::Usage(msg) => {
            assert_eq!(msg, "activity name must not be empty");
        }
        other => panic!("expected Usage, got {other:?}"),
    }
    assert_eq!(cli_err.exit_code(), 64);
    client.assert_consumed_in_order();
}

#[test]
fn create_name_already_exists_with_suffix_routes_to_malformed() {
    let mut client = MockClient::new();
    client.expect(
        create_req("Work"),
        Err("activity name already exists: Work".to_owned()),
    );
    let err = run(&mut client, "Work").expect_err("suffixed string must not match CantCreate");
    let cli_err = err.typed_cause()
        .expect("CliError must be in chain");
    match cli_err {
        CliError::MalformedResponse(MalformedResponseSource::Server(_)) => {}
        other => panic!("expected MalformedResponse(Server), not CantCreate; got {other:?}"),
    }
    assert_eq!(cli_err.exit_code(), 65);
    client.assert_consumed_in_order();
}

#[test]
fn create_name_must_not_be_empty_capitalized_routes_to_malformed() {
    let mut client = MockClient::new();
    client.expect(
        create_req("   "),
        Err("Activity name must not be empty".to_owned()),
    );
    let err = run(&mut client, "   ").expect_err("capitalized string must not match Usage");
    let cli_err = err.typed_cause()
        .expect("CliError must be in chain");
    match cli_err {
        CliError::MalformedResponse(MalformedResponseSource::Server(_)) => {}
        other => panic!("expected MalformedResponse(Server), not Usage; got {other:?}"),
    }
    assert_eq!(cli_err.exit_code(), 65);
    client.assert_consumed_in_order();
}

#[test]
fn create_other_server_error_routes_to_malformed_response() {
    let mut client = MockClient::new();
    client.expect(create_req("Work"), Err("some other failure".to_owned()));
    let err = run(&mut client, "Work").expect_err("server error must surface");
    let cli_err = err.typed_cause()
        .expect("CliError must be in chain");
    match cli_err {
        CliError::MalformedResponse(MalformedResponseSource::Server(msg)) => {
            assert_eq!(msg, "some other failure");
        }
        other => panic!("expected MalformedResponse(Server), got {other:?}"),
    }
    assert_eq!(cli_err.exit_code(), 65);
    client.assert_consumed_in_order();
}

#[test]
fn create_wrong_response_variant_is_malformed() {
    let mut client = MockClient::new();
    client.expect(create_req("Work"), Ok(Response::Version("v".into())));
    let err = run(&mut client, "Work").expect_err("wrong variant must fail");
    let cli_err = err.typed_cause()
        .expect("CliError must be in chain");
    match cli_err {
        CliError::MalformedResponse(MalformedResponseSource::WrongVariant {
            expected,
            got,
        }) => {
            assert_eq!(*expected, "Response::Handled");
            assert_eq!(got, "Response::Version");
        }
        other => panic!("expected WrongVariant, got {other:?}"),
    }
    assert_eq!(cli_err.exit_code(), 65);
    client.assert_consumed_in_order();
}

#[test]
fn create_preserves_context_in_error_chain() {
    let mut client = MockClient::new();
    client.expect(
        create_req("Work"),
        Err("activity name already exists".to_owned()),
    );
    let err = run(&mut client, "Work").expect_err("must fail");
    let formatted = err.describe();
    assert!(
        formatted.contains("creating activity"),
        "context layer missing from chain: {formatted}",
    );
    assert!(
        formatted.contains("\"Work\""),
        "leaf CantCreate (with quoted name) missing from chain: {formatted}",
    );
    client.assert_consumed_in_order();
}
