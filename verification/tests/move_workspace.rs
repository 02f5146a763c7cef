//! The `move-workspace` subcommand.

use jiji_activities::move_workspace;
use jiji_activities::cli::{FollowMode, resolve_follow_overview};
use jiji_activities::error::{CliError, Failure, MalformedResponseSource};
use jiji_activities::flow::{Progress, Step};
use jiji_activities::ipc::{
    Action,
    Activity,
    ActivityReferenceArg,
    IpcError,
    Request,
    Response,
    Workspace,
    WorkspaceReferenceArg,
};
use jiji_activities::picker::PickerOutcome;
use jiji_activities::resume::{resume_pick, resume_reply};
use std::collections::VecDeque;

/// A compositor that expects given requests, in order, and gives fixed replies.
struct MockClient {
    queue: VecDeque<(Request, Result<Response, String>)>,
}

impl MockClient {
    fn new() -> Self {
        MockClient { queue: VecDeque::new() }
    }

    fn expect(&mut self, request: Request, reply: Result<Response, String>) {
        self.queue.push_back((request, reply));
    }

    fn send(&mut self, request: Request) -> Result<Response, IpcError> {
        let (expected, reply) = self
            .queue
            .pop_front()
            .unwrap_or_else(|| panic!("unexpected request: {request:?}"));
        assert_eq!(request, expected, "another request was expected");
        reply.map_err(IpcError::Server)
    }

    fn assert_consumed_in_order(&self) {
        assert!(self.queue.is_empty(), "requests not sent: {:?}", self.queue);
    }
}

/// Carries out the steps of a subcommand until it is over.
fn drive(
    progress: Progress,
    client: &mut MockClient,
    pick: &mut dyn FnMut(&str, &[String]) -> Result<PickerOutcome, CliError>,
) -> Result<(), Failure> {
    let mut progress = progress;
    loop {
        let Progress { scope, step, .. } = progress;
        progress = match step {
            Step::Send { request, then } => {
                let reply = client.send(request);
                let shown = match &reply {
                    Ok(response) => format!("{response:?}"),
                    Err(_) => String::new(),
                };
                resume_reply(scope, then, reply, &shown)
            }
            Step::Pick { prompt, items, then } => {
                let picked = pick(prompt, &items);
                resume_pick(scope, then, picked)
            }
            Step::Finish { outcome } => return outcome,
            other => panic!("unexpected step: {other:?}"),
        };
    }
}

fn mode(follow: bool, overview: bool) -> FollowMode {
    resolve_follow_overview(follow, overview)
}

fn run(
    client: &mut MockClient,
    name: &str,
    pick: impl FnMut(&str, &[String]) -> Result<PickerOutcome, CliError>,
    follow: bool,
    overview: bool,
    workspace: Option<u64>,
) -> Result<(), Failure> {
    let mut pick = pick;
    drive(
        move_workspace::run(name.to_owned(), mode(follow, overview), workspace),
        client,
        &mut pick,
    )
}

fn run_picker(
    client: &mut MockClient,
    pick: impl FnMut(&str, &[String]) -> Result<PickerOutcome, CliError>,
    follow: bool,
    overview: bool,
    workspace: Option<u64>,
) -> Result<(), Failure> {
    let mut pick = pick;
    drive(
        move_workspace::run_picker(mode(follow, overview), workspace),
        client,
        &mut pick,
    )
}

fn move_req(name: &str) -> Request {
    Request::Action(Action::MoveWorkspaceToActivity {
        workspace: None,
        activity: ActivityReferenceArg::Name(name.to_owned()),
        focus: false,
    })
}

fn no_follow_pick(_: &str, _: &[String]) -> Result<PickerOutcome, CliError> {
    panic!("follow picker must NOT be invoked when --follow is off");
}

fn ws(id: u64, focused: bool, activities: Vec<u64>) -> Workspace {
    Workspace {
        id,
        idx: 0,
        name: None,
        output: Some("DP-1".into()),
        is_urgent: false,
        is_active: false,
        is_focused: focused,
        active_window_id: None,
        activities,
        is_sticky: false,
        is_in_active_activity: focused,
    }
}

#[test]
fn move_workspace_dispatches_action_with_name_arg() {
    let mut client = MockClient::new();
    client.expect(move_req("Work"), Ok(Response::Handled));
    run(&mut client, "Work", no_follow_pick, false, false, None)
        .expect("move-workspace succeeds on Handled");
    client.assert_consumed_in_order();
}

#[test]
fn move_workspace_unknown_name_maps_to_activity_not_found() {
    let mut client = MockClient::new();
    client.expect(move_req("Work"), Err("activity not found".to_owned()));
    let err = run(&mut client, "Work", no_follow_pick, false, false, None)
        .expect_err("unknown activity must fail");
    let cli_err = err.typed_cause()
        .expect("CliError must be in chain");
    match cli_err {
        CliError::ActivityNotFound(name) => assert_eq!(name, "Work"),
        other => panic!("expected ActivityNotFound, got {other:?}"),
    }
    assert_eq!(cli_err.exit_code(), 66);
    client.assert_consumed_in_order();
}

#[test]
fn move_workspace_workspace_not_found_routes_to_malformed_not_not_found() {
    let mut client = MockClient::new();
    client.expect(move_req("Work"), Err("workspace not found".to_owned()));
    let err =
        run(&mut client, "Work", no_follow_pick, false, false, None).expect_err("must fail");
    let cli_err = err.typed_cause()
        .expect("CliError must be in chain");
    match cli_err {
        CliError::MalformedResponse(MalformedResponseSource::Server(msg)) => {
            assert_eq!(msg, "workspace not found");
        }
        other => {
            panic!("expected MalformedResponse(Server), not ActivityNotFound; got {other:?}",)
        }
    }
    assert_eq!(cli_err.exit_code(), 65);
    client.assert_consumed_in_order();
}

#[test]
fn move_workspace_workspace_not_in_active_activity_routes_to_malformed() {
    let mut client = MockClient::new();
    client.expect(
        move_req("Work"),
        Err("workspace not in active activity".to_owned()),
    );
    let err =
        run(&mut client, "Work", no_follow_pick, false, false, None).expect_err("must fail");
    let cli_err = err.typed_cause()
        .expect("CliError must be in chain");
    match cli_err {
        CliError::MalformedResponse(MalformedResponseSource::Server(msg)) => {
            assert_eq!(msg, "workspace not in active activity");
        }
        other => panic!("expected MalformedResponse(Server), got {other:?}"),
    }
    assert_eq!(cli_err.exit_code(), 65);
    client.assert_consumed_in_order();
}

#[test]
fn move_workspace_wrong_response_variant_is_malformed() {
    let mut client = MockClient::new();
    client.expect(move_req("Work"), Ok(Response::Version("v".into())));
    let err = run(&mut client, "Work", no_follow_pick, false, false, None)
        .expect_err("wrong variant must fail");
    let cli_err = err.typed_cause()
        .expect("CliError must be in chain");
    match cli_err {
        CliError::MalformedResponse(MalformedResponseSource::WrongVariant {
            expected,
            got,
        }) => {
            assert_eq!(*expected, "Response::Handled");
            assert_eq!(got, "Response::Version");
        }
        other => panic!("expected WrongVariant, got {other:?}"),
    }
    assert_eq!(cli_err.exit_code(), 65);
    client.assert_consumed_in_order();
}

#[test]
fn move_workspace_other_server_error_routes_to_malformed_response() {
    let mut client = MockClient::new();
    client.expect(
        move_req("Work"),
        Err("activity switch blocked: gesture".to_owned()),
    );
    let err = run(&mut client, "Work", no_follow_pick, false, false, None)
        .expect_err("server error must surface");
    let cli_err = err.typed_cause()
        .expect("CliError must be in chain");
    match cli_err {
        CliError::MalformedResponse(MalformedResponseSource::Server(msg)) => {
            assert_eq!(msg, "activity switch blocked: gesture");
        }
        other => panic!("expected MalformedResponse(Server), got {other:?}"),
    }
    assert_eq!(cli_err.exit_code(), 65);
    client.assert_consumed_in_order();
}

#[test]
fn move_workspace_preserves_context_in_error_chain() {
    let mut client = MockClient::new();
    client.expect(move_req("Work"), Err("activity not found".to_owned()));
    let err =
        run(&mut client, "Work", no_follow_pick, false, false, None).expect_err("must fail");
    let formatted = err.describe();
    assert!(
        formatted.contains("moving workspace to activity"),
        "context layer missing from chain: {formatted}",
    );
    assert!(
        formatted.contains("no such activity: Work"),
        "ActivityNotFound Display missing from chain: {formatted}",
    );
    client.assert_consumed_in_order();
}

fn act(id: u64, name: &str, is_active: bool) -> Activity {
    Activity {
        id,
        name: name.into(),
        is_active,
        is_config_declared: true,
        ..Default::default()
    }
}

#[test]
fn run_picker_selects_and_dispatches_move_workspace() {
    let mut client = MockClient::new();
    client.expect(
        Request::Activities,
        Ok(Response::Activities(vec![
            act(1, "Work", true),
            act(2, "Personal", false),
        ])),
    );
    client.expect(move_req("Personal"), Ok(Response::Handled));

    let pick = |prompt: &str, items: &[String]| -> Result<PickerOutcome, CliError> {
        assert_eq!(prompt, "Move workspace to activity:");
        assert_eq!(items, &["Work".to_owned(), "Personal".to_owned()]);
        Ok(PickerOutcome::Selected("Personal".to_owned()))
    };

    run_picker(&mut client, pick, false, false, None).expect("happy path succeeds");
    client.assert_consumed_in_order();
}

#[test]
fn move_workspace_run_picker_empty_activities_warns_and_exits_zero() {
    let mut client = MockClient::new();
    client.expect(Request::Activities, Ok(Response::Activities(vec![])));

    let pick = |_prompt: &str, _items: &[String]| -> Result<PickerOutcome, CliError> {
        panic!("pick must not be called when activity list is empty");
    };

    run_picker(&mut client, pick, false, false, None).expect("empty list exits Ok");
    client.assert_consumed_in_order();
}

#[test]
fn run_picker_cancellation_skips_dispatch() {
    let mut client = MockClient::new();
    client.expect(
        Request::Activities,
        Ok(Response::Activities(vec![act(1, "Work", true)])),
    );

    let pick = |_prompt: &str, _items: &[String]| -> Result<PickerOutcome, CliError> {
        Ok(PickerOutcome::Cancelled)
    };

    run_picker(&mut client, pick, false, false, None).expect("cancellation is silent Ok");
    client.assert_consumed_in_order();
}

#[test]
fn move_workspace_run_picker_wrong_activities_variant_is_malformed() {
    let mut client = MockClient::new();
    client.expect(
        Request::Activities,
        Ok(Response::Version("v".into())),
    );

    let pick = |_prompt: &str, _items: &[String]| -> Result<PickerOutcome, CliError> {
        panic!("pick must not be called on a malformed Activities response");
    };

    let err =
        run_picker(&mut client, pick, false, false, None).expect_err("wrong variant must fail");
    let cli_err = err.typed_cause()
        .expect("CliError must be in chain");
    match cli_err {
        CliError::MalformedResponse(MalformedResponseSource::WrongVariant {
            expected,
            got,
        }) => {
            assert_eq!(*expected, "Response::Activities");
            assert_eq!(got, "Response::Version");
        }
        other => panic!("expected WrongVariant, got {other:?}"),
    }
    assert_eq!(cli_err.exit_code(), 65);
    client.assert_consumed_in_order();
}

fn focus_workspace_req(ws_id: u64) -> Request {
    Request::Action(Action::FocusWorkspace {
        reference: WorkspaceReferenceArg::Id(ws_id),
        activity: None,
    })
}

#[test]
fn move_workspace_run_follow_captures_workspace_id_via_workspaces_snapshot() {
    let mut client = MockClient::new();
    client.expect(
        Request::Workspaces,
        Ok(Response::Workspaces(vec![ws(42, true, vec![1])])),
    );
    client.expect(move_req("Personal"), Ok(Response::Handled));
    client.expect(focus_workspace_req(42), Ok(Response::Handled));

    let pick = |prompt: &str, items: &[String]| -> Result<PickerOutcome, CliError> {
        assert_eq!(prompt, "Follow?");
        assert_eq!(items.len(), 2);
        assert_eq!(items[1], "« Stay »");
        Ok(PickerOutcome::Selected(items[0].clone()))
    };

    run(&mut client, "Personal", pick, true, false, None).expect("--follow succeeds");
    client.assert_consumed_in_order();
}

#[test]
fn move_workspace_run_follow_picker_unknown_row_routes_to_malformed_server() {
    let mut client = MockClient::new();
    client.expect(
        Request::Workspaces,
        Ok(Response::Workspaces(vec![ws(42, true, vec![1])])),
    );
    client.expect(move_req("Personal"), Ok(Response::Handled));

    let pick = |_: &str, _: &[String]| -> Result<PickerOutcome, CliError> {
        Ok(PickerOutcome::Selected("definitely-not-an-item".to_owned()))
    };
    let err = run(&mut client, "Personal", pick, true, false, None)
        .expect_err("unknown row must route to MalformedResponse");
    let cli_err = err.typed_cause()
        .expect("CliError must be in chain");
    match cli_err {
        CliError::MalformedResponse(MalformedResponseSource::Server(msg)) => {
            assert!(
                msg.contains("follow picker returned row not in items"),
                "expected synthetic discipline message, got: {msg}",
            );
        }
        other => panic!("expected MalformedResponse(Server), got {other:?}"),
    }
    assert_eq!(cli_err.exit_code(), 65);
    client.assert_consumed_in_order();
}

#[test]
fn move_workspace_run_follow_no_focused_workspace_exits_65_before_move() {
    let mut client = MockClient::new();
    client.expect(
        Request::Workspaces,
        Ok(Response::Workspaces(vec![ws(42, false, vec![1])])),
    );
    let err = run(&mut client, "Personal", no_follow_pick, true, false, None)
        .expect_err("no focused workspace must fail with exit 65 before move");
    let cli_err = err.typed_cause()
        .expect("CliError must be in chain");
    match cli_err {
        CliError::MalformedResponse(MalformedResponseSource::Server(msg)) => {
            assert_eq!(msg, "no focused workspace");
        }
        other => panic!("expected MalformedResponse(Server), got {other:?}"),
    }
    assert_eq!(cli_err.exit_code(), 65);
    client.assert_consumed_in_order();
}

#[test]
fn move_workspace_run_picker_threads_follow_flag_to_run() {
    let mut client = MockClient::new();
    client.expect(
        Request::Activities,
        Ok(Response::Activities(vec![act(1, "Work", true)])),
    );
    client.expect(
        Request::Workspaces,
        Ok(Response::Workspaces(vec![ws(99, true, vec![1])])),
    );
    client.expect(move_req("Work"), Ok(Response::Handled));
    client.expect(focus_workspace_req(99), Ok(Response::Handled));

    let pick = |prompt: &str, items: &[String]| -> Result<PickerOutcome, CliError> {
        if prompt == "Move workspace to activity:" {
            Ok(PickerOutcome::Selected("Work".to_owned()))
        } else {
            assert_eq!(prompt, "Follow?");
            Ok(PickerOutcome::Selected(items[0].clone()))
        }
    };

    run_picker(&mut client, pick, true, false, None).expect("delegation threads --follow");
    client.assert_consumed_in_order();
}

#[test]
fn move_workspace_run_picker_threads_overview_flag_to_run() {
    let mut client = MockClient::new();
    client.expect(
        Request::Activities,
        Ok(Response::Activities(vec![act(1, "Work", true)])),
    );
    client.expect(
        Request::Workspaces,
        Ok(Response::Workspaces(vec![ws(99, true, vec![1])])),
    );
    client.expect(move_req("Work"), Ok(Response::Handled));
    client.expect(focus_workspace_req(99), Ok(Response::Handled));
    client.expect(
        Request::Action(Action::OpenOverview {}),
        Ok(Response::Handled),
    );

    let pick = |prompt: &str, items: &[String]| -> Result<PickerOutcome, CliError> {
        if prompt == "Move workspace to activity:" {
            Ok(PickerOutcome::Selected("Work".to_owned()))
        } else {
            assert_eq!(prompt, "Follow?");
            Ok(PickerOutcome::Selected(items[0].clone()))
        }
    };

    run_picker(&mut client, pick, true, true, None).expect("delegation threads --overview");
    client.assert_consumed_in_order();
}

#[test]
fn move_workspace_explicit_workspace_threads_into_request_payload() {
    let mut client = MockClient::new();
    client.expect(
        Request::Action(Action::MoveWorkspaceToActivity {
            workspace: Some(WorkspaceReferenceArg::Id(42)),
            activity: ActivityReferenceArg::Name("Personal".to_owned()),
            focus: false,
        }),
        Ok(Response::Handled),
    );
    run(
        &mut client,
        "Personal",
        no_follow_pick,
        false,
        false,
        Some(42),
    )
    .expect("explicit --workspace succeeds");
    client.assert_consumed_in_order();
}

#[test]
fn move_workspace_explicit_workspace_with_follow_skips_capture_roundtrip() {
    let mut client = MockClient::new();
    client.expect(
        Request::Action(Action::MoveWorkspaceToActivity {
            workspace: Some(WorkspaceReferenceArg::Id(42)),
            activity: ActivityReferenceArg::Name("Personal".to_owned()),
            focus: false,
        }),
        Ok(Response::Handled),
    );
    client.expect(focus_workspace_req(42), Ok(Response::Handled));

    let pick = |prompt: &str, items: &[String]| -> Result<PickerOutcome, CliError> {
        assert_eq!(prompt, "Follow?");
        Ok(PickerOutcome::Selected(items[0].clone()))
    };
    run(&mut client, "Personal", pick, true, false, Some(42))
        .expect("--workspace with --follow skips snapshot round-trip");
    client.assert_consumed_in_order();
}
