//! Following what was moved.

use jiji_activities::follow;
use jiji_activities::error::{CliError, Failure, MalformedResponseSource};
use jiji_activities::flow::{Progress, Step};
use jiji_activities::follow::{STAY_FALLBACK, STAY_UNICODE, stay_sentinel};
use jiji_activities::ipc::{
    Action,
    ActivityReferenceArg,
    IpcError,
    Request,
    Response,
    WorkspaceReferenceArg,
};
use jiji_activities::resume::resume_reply;
use std::collections::VecDeque;

/// A compositor that expects given requests, in order, and gives fixed replies.
struct MockClient {
    queue: VecDeque<(Request, Result<Response, String>)>,
}

impl MockClient {
    fn new() -> Self {
        MockClient { queue: VecDeque::new() }
    }

    fn expect(&mut self, request: Request, reply: Result<Response, String>) {
        self.queue.push_back((request, reply));
    }

    fn send(&mut self, request: Request) -> Result<Response, IpcError> {
        let (expected, reply) = self
            .queue
            .pop_front()
            .unwrap_or_else(|| panic!("unexpected request: {request:?}"));
        assert_eq!(request, expected, "another request was expected");
        reply.map_err(IpcError::Server)
    }

    fn assert_consumed_in_order(&self) {
        assert!(self.queue.is_empty(), "requests not sent: {:?}", self.queue);
    }
}

/// Carries out the steps of a subcommand until it is over.
fn drive(
    progress: Progress,
    client: &mut MockClient,
) -> Result<(), Failure> {
    let mut progress = progress;
    loop {
        let Progress { scope, step, .. } = progress;
        progress = match step {
            Step::Send { request, then } => {
                let reply = client.send(request);
                let shown = match &reply {
                    Ok(response) => format!("{response:?}"),
                    Err(_) => String::new(),
                };
                resume_reply(scope, then, reply, &shown)
            }
            Step::Finish { outcome } => return outcome,
            other => panic!("unexpected step: {other:?}"),
        };
    }
}

fn dispatch_follow_workspace(
    client: &mut MockClient,
    workspace_id: u64,
    overview: bool,
) -> Result<(), Failure> {
    drive(follow::dispatch_follow_workspace(workspace_id, overview), client)
}

fn dispatch_follow_workspace_and_window(
    client: &mut MockClient,
    workspace_id: u64,
    window_id: u64,
    overview: bool,
) -> Result<(), Failure> {
    drive(
        follow::dispatch_follow_workspace_and_window(workspace_id, window_id, overview),
        client,
    )
}

fn dispatch_follow_activity_and_workspace(
    client: &mut MockClient,
    activity_name: &str,
    workspace_id: u64,
    overview: bool,
) -> Result<(), Failure> {
    drive(
        follow::dispatch_follow_activity_and_workspace(activity_name, workspace_id, overview),
        client,
    )
}

fn focus_workspace_req(ws_id: u64) -> Request {
    Request::Action(Action::FocusWorkspace {
        reference: WorkspaceReferenceArg::Id(ws_id),
        activity: None,
    })
}

fn focus_window_req(id: u64) -> Request {
    Request::Action(Action::FocusWindow { id })
}

fn open_overview_req() -> Request {
    Request::Action(Action::OpenOverview {})
}

fn switch_activity_req(name: &str) -> Request {
    Request::Action(Action::SwitchActivity {
        activity: ActivityReferenceArg::Name(name.to_owned()),
    })
}

#[test]
fn dispatch_follow_workspace_no_overview_emits_focus_workspace_only() {
    let mut client = MockClient::new();
    client.expect(focus_workspace_req(7), Ok(Response::Handled));
    dispatch_follow_workspace(&mut client, 7, false).expect("happy path");
    client.assert_consumed_in_order();
}

#[test]
fn dispatch_follow_workspace_with_overview_emits_focus_workspace_then_open_overview() {
    let mut client = MockClient::new();
    client.expect(focus_workspace_req(7), Ok(Response::Handled));
    client.expect(open_overview_req(), Ok(Response::Handled));
    dispatch_follow_workspace(&mut client, 7, true).expect("happy path");
    client.assert_consumed_in_order();
}

#[test]
fn dispatch_follow_workspace_and_window_no_overview_emits_focus_workspace_then_focus_window() {
    let mut client = MockClient::new();
    client.expect(focus_workspace_req(7), Ok(Response::Handled));
    client.expect(focus_window_req(42), Ok(Response::Handled));
    dispatch_follow_workspace_and_window(&mut client, 7, 42, false).expect("happy path");
    client.assert_consumed_in_order();
}

#[test]
fn dispatch_follow_workspace_and_window_with_overview_emits_three_actions_in_order() {
    let mut client = MockClient::new();
    client.expect(focus_workspace_req(7), Ok(Response::Handled));
    client.expect(focus_window_req(42), Ok(Response::Handled));
    client.expect(open_overview_req(), Ok(Response::Handled));
    dispatch_follow_workspace_and_window(&mut client, 7, 42, true).expect("happy path");
    client.assert_consumed_in_order();
}

#[test]
fn dispatch_follow_activity_and_workspace_no_overview_emits_switch_then_focus() {
    let mut client = MockClient::new();
    client.expect(switch_activity_req("Work"), Ok(Response::Handled));
    client.expect(focus_workspace_req(7), Ok(Response::Handled));
    dispatch_follow_activity_and_workspace(&mut client, "Work", 7, false).expect("happy path");
    client.assert_consumed_in_order();
}

#[test]
fn dispatch_follow_activity_and_workspace_with_overview_emits_all_three_in_order() {
    let mut client = MockClient::new();
    client.expect(switch_activity_req("Work"), Ok(Response::Handled));
    client.expect(focus_workspace_req(7), Ok(Response::Handled));
    client.expect(open_overview_req(), Ok(Response::Handled));
    dispatch_follow_activity_and_workspace(&mut client, "Work", 7, true).expect("happy path");
    client.assert_consumed_in_order();
}

#[test]
fn dispatch_follow_activity_and_workspace_switch_activity_wire_error_routes_to_server() {
    let mut client = MockClient::new();
    client.expect(
        switch_activity_req("Work"),
        Err("activity not found".to_owned()),
    );
    let err = dispatch_follow_activity_and_workspace(&mut client, "Work", 7, false)
        .expect_err("activity-not-found must surface as error");
    let cli_err = err.typed_cause()
        .expect("CliError must be in chain");
    match cli_err {
        CliError::MalformedResponse(MalformedResponseSource::Server(msg)) => {
            assert_eq!(msg, "activity not found");
        }
        other => {
            panic!("expected MalformedResponse(Server), NOT ActivityNotFound; got {other:?}",)
        }
    }
    assert_eq!(cli_err.exit_code(), 65);
    client.assert_consumed_in_order();
}

#[test]
fn follow_picker_stay_sentinel_falls_back_when_activity_named_stay_exists() {
    assert_eq!(stay_sentinel(&["Work", "Personal"]), STAY_UNICODE);
    assert_eq!(stay_sentinel(&["Work", STAY_UNICODE]), STAY_FALLBACK);
    assert_eq!(stay_sentinel(&["Work", STAY_FALLBACK]), STAY_UNICODE);
}
