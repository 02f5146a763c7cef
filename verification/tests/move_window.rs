//! The `move-window` and `move-window-here` subcommands.

use jiji_activities::move_window;
use jiji_activities::cli::{FollowMode, resolve_follow_overview};
use jiji_activities::error::{CliError, Failure, MalformedResponseSource};
use jiji_activities::flow::{Progress, Step};
use jiji_activities::ipc::{
    Action,
    Activity,
    IpcError,
    NoOpReason,
    Request,
    Response,
    Workspace,
    WorkspaceReferenceArg,
};
use jiji_activities::ipc_helpers::HandledOutcome;
use jiji_activities::move_window::{
    format_already_current_breadcrumb,
    format_move_confirmation,
    handle_move_outcome,
};
use jiji_activities::move_window::rows::{
    Stage1Resolution,
    Stage2ResolutionLiteralOnly,
    Stage2ResolutionWithNew,
    compose_stage1_items,
    compose_stage2_items_literal_only,
    compose_stage2_items_with_new,
    resolve_stage1,
    resolve_stage2_literal_only,
    resolve_stage2_with_new,
    sentinel_names,
    workspace_label,
    workspace_label_with_annotations,
    workspace_sentinel_names,
};
use jiji_activities::move_window::snapshot::{
    capture_focused_window_id,
    current_activity,
    focused_output_name,
    focused_workspace,
    sort_for_picker,
    trailing_empty_workspace,
    workspaces_in_activity_on_focused_output,
};
use jiji_activities::picker::{NameOutcome, PickerOutcome};
use jiji_activities::resume::{resume_name, resume_pick, resume_reply};
use std::collections::{HashMap, VecDeque};

/// A compositor that expects given requests, in order, and gives fixed replies.
struct MockClient {
    queue: VecDeque<(Request, Result<Response, String>)>,
}

impl MockClient {
    fn new() -> Self {
        MockClient { queue: VecDeque::new() }
    }

    fn expect(&mut self, request: Request, reply: Result<Response, String>) {
        self.queue.push_back((request, reply));
    }

    fn send(&mut self, request: Request) -> Result<Response, IpcError> {
        let (expected, reply) = self
            .queue
            .pop_front()
            .unwrap_or_else(|| panic!("unexpected request: {request:?}"));
        assert_eq!(request, expected, "another request was expected");
        reply.map_err(IpcError::Server)
    }

    fn assert_consumed_in_order(&self) {
        assert!(self.queue.is_empty(), "requests not sent: {:?}", self.queue);
    }
}

/// Carries out the steps of a subcommand until it is over.
fn drive(
    progress: Progress,
    client: &mut MockClient,
    pick: &mut dyn FnMut(&str, &[String]) -> Result<PickerOutcome, CliError>,
    ask: &mut dyn FnMut(&str) -> Result<NameOutcome, CliError>,
) -> Result<(), Failure> {
    let mut progress = progress;
    loop {
        let Progress { scope, step, .. } = progress;
        progress = match step {
            Step::Send { request, then } => {
                let reply = client.send(request);
                let shown = match &reply {
                    Ok(response) => format!("{response:?}"),
                    Err(_) => String::new(),
                };
                resume_reply(scope, then, reply, &shown)
            }
            Step::Pick { prompt, items, then } => {
                let picked = pick(prompt, &items);
                resume_pick(scope, then, picked)
            }
            Step::PromptName { prompt, then } => {
                let named = ask(prompt);
                resume_name(scope, then, named)
            }
            Step::Finish { outcome } => return outcome,
            other => panic!("unexpected step: {other:?}"),
        };
    }
}

fn mode(follow: bool, overview: bool) -> FollowMode {
    resolve_follow_overview(follow, overview)
}

fn no_menu(_: &str, _: &[String]) -> Result<PickerOutcome, CliError> {
    panic!("no menu is expected");
}

fn run(
    client: &mut MockClient,
    name: &str,
    follow: bool,
    overview: bool,
) -> Result<(), Failure> {
    drive(
        move_window::run(name.to_owned(), mode(follow, overview), None),
        client,
        &mut no_menu,
        &mut no_new_activity_prompt,
    )
}

fn run_picker(
    client: &mut MockClient,
    pick: impl FnMut(&str, &[String]) -> Result<PickerOutcome, CliError>,
    ask: impl FnMut(&str) -> Result<NameOutcome, CliError>,
    follow: bool,
    overview: bool,
) -> Result<(), Failure> {
    let mut pick = pick;
    let mut ask = ask;
    drive(move_window::run_picker(mode(follow, overview), None), client, &mut pick, &mut ask)
}

fn run_here_picker(
    client: &mut MockClient,
    pick: impl FnMut(&str, &[String]) -> Result<PickerOutcome, CliError>,
    follow: bool,
    overview: bool,
) -> Result<(), Failure> {
    let mut pick = pick;
    drive(
        move_window::run_here_picker(mode(follow, overview), None),
        client,
        &mut pick,
        &mut no_new_activity_prompt,
    )
}

fn create_activity_via_ipc(client: &mut MockClient, name: &str) -> Result<(), Failure> {
    drive(
        move_window::create_activity_via_ipc(name.to_owned(), FollowMode::Off, None),
        client,
        &mut no_menu,
        &mut no_new_activity_prompt,
    )
}

fn outcome_of_move(
    outcome: HandledOutcome,
    workspace_id: u64,
    activity_name: &str,
    workspaces: &Vec<Workspace>,
) -> Result<(), Failure> {
    drive(
        handle_move_outcome(outcome, workspace_id, activity_name, workspaces),
        &mut MockClient::new(),
        &mut no_menu,
        &mut no_new_activity_prompt,
    )
}

fn act(id: u64, name: &str, is_active: bool) -> Activity {
    Activity {
        id,
        name: name.into(),
        is_active,
        is_config_declared: true,
        ..Default::default()
    }
}

fn ws(
    id: u64,
    idx: u8,
    focused: bool,
    output: Option<&str>,
    activities: Vec<u64>,
    active_window: Option<u64>,
) -> Workspace {
    Workspace {
        id,
        idx,
        name: None,
        output: output.map(str::to_owned),
        is_urgent: false,
        is_active: false,
        is_focused: focused,
        active_window_id: active_window,
        activities,
        is_sticky: false,
        is_in_active_activity: focused,
    }
}

fn ws_hidden(
    id: u64,
    idx: u8,
    output: Option<&str>,
    activities: Vec<u64>,
    active_window: Option<u64>,
) -> Workspace {
    let mut w = ws(id, idx, false, output, activities, active_window);
    w.is_in_active_activity = false;
    w
}

fn move_req(ws_id: u64) -> Request {
    Request::Action(Action::MoveWindowToWorkspace {
        window_id: None,
        reference: WorkspaceReferenceArg::Id(ws_id),
        focus: false,
    })
}

fn move_req_with_window(ws_id: u64, window_id: u64) -> Request {
    Request::Action(Action::MoveWindowToWorkspace {
        window_id: Some(window_id),
        reference: WorkspaceReferenceArg::Id(ws_id),
        focus: false,
    })
}

fn no_new_activity_prompt(_prompt: &str) -> Result<NameOutcome, CliError> {
    panic!("prompt_name_fn must NOT be invoked for this test");
}

#[test]
fn focused_workspace_returns_focused_one() {
    let workspaces = vec![
        ws(1, 0, false, Some("DP-1"), vec![1], None),
        ws(2, 1, true, Some("DP-1"), vec![1], None),
    ];
    let w = focused_workspace(&workspaces).expect("focused exists");
    assert_eq!(w.id, 2);
}

#[test]
fn focused_workspace_no_focused_routes_to_malformed_server() {
    let workspaces = vec![ws(1, 0, false, Some("DP-1"), vec![1], None)];
    let err = focused_workspace(&workspaces).expect_err("no focused must fail");
    match err {
        CliError::MalformedResponse(MalformedResponseSource::Server(msg)) => {
            assert_eq!(msg, "no focused workspace");
        }
        other => panic!("expected MalformedResponse(Server), got {other:?}"),
    }
}

#[test]
fn focused_output_name_returns_output_field() {
    let workspaces = vec![ws(1, 0, true, Some("DP-1"), vec![1], None)];
    let out = focused_output_name(&workspaces).expect("output exists");
    assert_eq!(out, "DP-1");
}

#[test]
fn focused_output_name_focused_workspace_no_output_routes_to_malformed_server() {
    let workspaces = vec![ws(1, 0, true, None, vec![1], None)];
    let err = focused_output_name(&workspaces).expect_err("no output must fail");
    match err {
        CliError::MalformedResponse(MalformedResponseSource::Server(msg)) => {
            assert_eq!(msg, "focused workspace has no output");
        }
        other => panic!("expected MalformedResponse(Server), got {other:?}"),
    }
}

#[test]
fn current_activity_returns_active_one() {
    let acts = vec![act(1, "Work", false), act(2, "Personal", true)];
    let a = current_activity(&acts).expect("active exists");
    assert_eq!(a.id, 2);
    assert_eq!(a.name, "Personal");
}

#[test]
fn current_activity_no_active_routes_to_malformed_server() {
    let acts = vec![act(1, "Work", false)];
    let err = current_activity(&acts).expect_err("no active must fail");
    match err {
        CliError::MalformedResponse(MalformedResponseSource::Server(msg)) => {
            assert_eq!(msg, "no active activity");
        }
        other => panic!("expected MalformedResponse(Server), got {other:?}"),
    }
}

#[test]
fn workspaces_in_activity_on_focused_output_filters_by_membership_and_output() {
    let workspaces = vec![
        ws(1, 0, false, Some("DP-1"), vec![1], None),
        ws(2, 1, false, Some("DP-1"), vec![2], None),
        ws(3, 2, false, Some("DP-2"), vec![1], None),
        ws(4, 3, false, Some("DP-1"), vec![1, 2], None),
    ];
    let filtered = workspaces_in_activity_on_focused_output(&workspaces, 1, "DP-1");
    assert_eq!(
        filtered.iter().map(|w| w.id).collect::<Vec<_>>(),
        vec![1, 4]
    );
}

#[test]
fn workspaces_in_activity_on_focused_output_preserves_compositor_order() {
    let workspaces = vec![
        ws(10, 2, false, Some("DP-1"), vec![1], None),
        ws(11, 0, false, Some("DP-1"), vec![1], None),
        ws(12, 1, false, Some("DP-1"), vec![1], None),
    ];
    let filtered = workspaces_in_activity_on_focused_output(&workspaces, 1, "DP-1");
    assert_eq!(
        filtered.iter().map(|w| w.id).collect::<Vec<_>>(),
        vec![10, 11, 12]
    );
}

#[test]
fn sort_for_picker_orders_hidden_workspaces_by_id_ascending() {
    let a = ws_hidden(30, 0, Some("DP-1"), vec![2], None);
    let b = ws_hidden(10, 0, Some("DP-1"), vec![2], None);
    let c = ws_hidden(20, 0, Some("DP-1"), vec![2], None);
    let mut filtered = vec![&a, &b, &c];
    sort_for_picker(&mut filtered);
    assert_eq!(
        filtered.iter().map(|w| w.id).collect::<Vec<_>>(),
        vec![10, 20, 30],
    );
}

#[test]
fn sort_for_picker_orders_active_workspaces_by_idx_ascending() {
    let mut a = ws(100, 2, false, Some("DP-1"), vec![1], None);
    a.is_in_active_activity = true;
    let mut b = ws(101, 0, false, Some("DP-1"), vec![1], None);
    b.is_in_active_activity = true;
    let mut c = ws(102, 1, false, Some("DP-1"), vec![1], None);
    c.is_in_active_activity = true;
    let mut filtered = vec![&a, &b, &c];
    sort_for_picker(&mut filtered);
    assert_eq!(
        filtered.iter().map(|w| w.idx).collect::<Vec<_>>(),
        vec![0, 1, 2],
    );
}

#[test]
fn sort_for_picker_active_workspaces_sort_before_hidden_workspaces() {
    let mut active = ws(50, 99, false, Some("DP-1"), vec![1], None);
    active.is_in_active_activity = true;
    let hidden = ws_hidden(0, 0, Some("DP-1"), vec![2], None);
    let mut filtered = vec![&hidden, &active];
    sort_for_picker(&mut filtered);
    assert_eq!(
        filtered.iter().map(|w| w.id).collect::<Vec<_>>(),
        vec![50, 0],
        "active bucket must precede hidden bucket regardless of idx/id values",
    );
}

#[test]
fn format_move_confirmation_renders_workspace_activity() {
    let line = format_move_confirmation(7, "Personal");
    assert_eq!(
        line,
        "niri-activities: moved focused window to workspace 7 in activity 'Personal'",
    );
}

#[test]
fn workspace_label_named_workspace_includes_name_and_idx() {
    let mut w = ws(1, 3, false, Some("DP-1"), vec![1], None);
    w.is_in_active_activity = true;
    w.name = Some("Work".into());
    assert_eq!(workspace_label(&w), "Work (idx 3)");
}

#[test]
fn workspace_label_unnamed_workspace_shows_idx_only() {
    let mut w = ws(1, 7, false, Some("DP-1"), vec![1], None);
    w.is_in_active_activity = true;
    assert_eq!(workspace_label(&w), "idx 7");
}

#[test]
fn workspace_label_named_hidden_workspace_uses_id() {
    let mut w = ws_hidden(42, 0, Some("DP-1"), vec![2], None);
    w.name = Some("Reading".into());
    assert_eq!(workspace_label(&w), "Reading (id 42)");
}

#[test]
fn workspace_label_unnamed_hidden_workspace_uses_id() {
    let w = ws_hidden(7, 0, Some("DP-1"), vec![2], None);
    assert_eq!(workspace_label(&w), "id 7");
}

#[test]
fn workspace_label_two_hidden_workspaces_with_idx_zero_produce_distinct_labels() {
    let a = ws_hidden(11, 0, Some("DP-1"), vec![3], None);
    let b = ws_hidden(12, 0, Some("DP-1"), vec![3], None);
    let la = workspace_label(&a);
    let lb = workspace_label(&b);
    assert_ne!(la, lb, "hidden workspaces must produce distinct labels");
    assert_eq!(la, "id 11");
    assert_eq!(lb, "id 12");
}

#[test]
fn trailing_empty_workspace_picks_max_idx_with_no_active_window() {
    let a = ws(1, 0, false, Some("DP-1"), vec![1], None);
    let b = ws(2, 5, false, Some("DP-1"), vec![1], None);
    let c = ws(3, 3, false, Some("DP-1"), vec![1], Some(42));
    let filtered = vec![&a, &b, &c];
    let trailing = trailing_empty_workspace(&filtered).expect("trailing-empty exists");
    assert_eq!(trailing.id, 2, "max-idx empty workspace must win");
}

#[test]
fn trailing_empty_workspace_returns_none_when_all_have_windows() {
    let a = ws(1, 0, false, Some("DP-1"), vec![1], Some(10));
    let b = ws(2, 1, false, Some("DP-1"), vec![1], Some(20));
    let filtered = vec![&a, &b];
    assert!(trailing_empty_workspace(&filtered).is_none());
}

#[test]
fn sentinel_names_no_collision_uses_unicode() {
    let names = vec!["Work", "Personal"];
    let s = sentinel_names(&names);
    assert_eq!(s.current, "« Current activity »");
    assert_eq!(s.new_activity, "« New activity »");
}

#[test]
fn sentinel_names_collision_with_current_activity_uses_underscore_fallback() {
    let names = vec!["Work", "« Current activity »"];
    let s = sentinel_names(&names);
    assert_eq!(s.current, "__niri_activities_current_activity__");
    assert_eq!(s.new_activity, "« New activity »");
}

#[test]
fn sentinel_names_falls_back_when_activity_named_new_activity() {
    let names = vec!["Work", "« New activity »"];
    let s = sentinel_names(&names);
    assert_eq!(s.current, "« Current activity »");
    assert_eq!(s.new_activity, "__niri_activities_new_activity__");
}

#[test]
fn workspace_sentinel_names_no_collision_uses_unicode() {
    let labels = vec!["ws-1", "ws-2"];
    let s = workspace_sentinel_names(&labels);
    assert_eq!(s, "« New workspace »");
}

#[test]
fn workspace_sentinel_names_collision_with_new_workspace_uses_underscore_fallback() {
    let labels = vec!["ws-1", "« New workspace »"];
    let s = workspace_sentinel_names(&labels);
    assert_eq!(s, "__niri_activities_new_workspace__");
}

#[test]
fn compose_stage1_items_puts_current_activity_sentinel_first() {
    let acts = vec![act(1, "Work", false), act(2, "Personal", true)];
    let sentinels = sentinel_names(&["Work", "Personal"]);
    let items = compose_stage1_items(&acts, &sentinels);
    assert_eq!(items[0], "« Current activity »");
    assert_eq!(items[1], "Work");
    assert_eq!(items[2], "Personal");
}

#[test]
fn compose_stage1_items_preserves_compositor_order_no_focused_first_reorder() {
    let acts = vec![act(1, "Work", false), act(2, "Personal", true)];
    let sentinels = sentinel_names(&["Work", "Personal"]);
    let items = compose_stage1_items(&acts, &sentinels);
    assert_eq!(
        items,
        vec![
            "« Current activity »",
            "Work",
            "Personal",
            "« New activity »",
        ],
    );
}

#[test]
fn compose_stage1_includes_new_activity_sentinel_at_end() {
    let acts = vec![act(1, "Work", false), act(2, "Personal", true)];
    let sentinels = sentinel_names(&["Work", "Personal"]);
    let items = compose_stage1_items(&acts, &sentinels);
    assert_eq!(items.last().map(String::as_str), Some("« New activity »"));
    assert_eq!(items.len(), 4);
}

#[test]
fn compose_stage2_items_with_new_appends_new_workspace_sentinel() {
    let a = ws(1, 0, false, Some("DP-1"), vec![1], None);
    let b = ws(2, 1, false, Some("DP-1"), vec![1], None);
    let filtered = vec![&a, &b];
    let sentinel = workspace_sentinel_names(&["idx 0", "idx 1"]);
    let items = compose_stage2_items_with_new(&filtered, None, &sentinel, 1, &HashMap::new());
    assert_eq!(items.last().map(String::as_str), Some("« New workspace »"));
    assert_eq!(items.len(), 3);
}

#[test]
fn compose_stage2_items_literal_only_omits_new_workspace_sentinel() {
    let a = ws(1, 0, false, Some("DP-1"), vec![1], None);
    let filtered = vec![&a];
    let items = compose_stage2_items_literal_only(&filtered, None, 1, &HashMap::new());
    assert!(items.iter().all(|s| s != "« New workspace »"));
    assert!(
        items
            .iter()
            .all(|s| s != "__niri_activities_new_workspace__")
    );
    assert_eq!(items.len(), 1);
}

#[test]
fn dispatch_stage2_literal_only_still_does_not_offer_new_workspace_sentinel_to_picker() {
    let a = ws(1, 0, false, Some("DP-1"), vec![1], None);
    let b = ws(2, 1, false, Some("DP-1"), vec![1], None);
    let filtered = vec![&a, &b];
    let items = compose_stage2_items_literal_only(&filtered, None, 1, &HashMap::new());
    assert!(items.iter().all(|s| s != "« New workspace »"));
    assert!(
        items
            .iter()
            .all(|s| s != "__niri_activities_new_workspace__")
    );
}

fn activity_lookup(entries: &[(u64, &str)]) -> HashMap<u64, String> {
    entries
        .iter()
        .map(|(id, name)| (*id, (*name).to_owned()))
        .collect()
}

#[test]
fn workspace_label_with_annotations_appends_current_suffix() {
    let mut w = ws(7, 2, true, Some("DP-1"), vec![1], None);
    w.is_in_active_activity = true;
    let names = activity_lookup(&[(1, "Work")]);
    assert_eq!(
        workspace_label_with_annotations(&w, 1, true, &names),
        "idx 2 (current)",
    );
    assert_eq!(
        workspace_label_with_annotations(&w, 1, false, &names),
        "idx 2",
    );
}

#[test]
fn compose_stage2_annotates_only_focused_window_workspace() {
    let mut a = ws(10, 0, false, Some("DP-1"), vec![1], None);
    a.is_in_active_activity = true;
    let mut b = ws(20, 1, true, Some("DP-1"), vec![1], None);
    b.is_in_active_activity = true;
    let mut c = ws(30, 2, false, Some("DP-1"), vec![1], None);
    c.is_in_active_activity = true;
    let filtered = vec![&a, &b, &c];
    let sentinel = workspace_sentinel_names(&[]);
    let names = activity_lookup(&[(1, "Work")]);
    let items = compose_stage2_items_with_new(&filtered, Some(20), &sentinel, 1, &names);
    assert_eq!(items[0], "idx 0");
    assert_eq!(items[1], "idx 1 (current)");
    assert_eq!(items[2], "idx 2");
    assert_eq!(items[3], "« New workspace »");
    assert_eq!(
        items.iter().filter(|s| s.contains("(current)")).count(),
        1,
        "exactly one row must carry (current); got: {items:?}",
    );
}

#[test]
fn resolve_stage2_with_new_current_row_returns_already_current() {
    let mut w = ws(7, 3, true, Some("DP-1"), vec![1], None);
    w.is_in_active_activity = true;
    let other = ws(8, 4, false, Some("DP-1"), vec![1], None);
    let filtered = vec![&w, &other];
    let sentinel = workspace_sentinel_names(&[]);
    let picked = PickerOutcome::Selected("idx 3 (current)".into());
    let names = activity_lookup(&[(1, "Work")]);
    match resolve_stage2_with_new(picked, &sentinel, &filtered, Some(7), 1, &names) {
        Stage2ResolutionWithNew::AlreadyCurrent(id) => assert_eq!(id, 7),
        other => panic!("expected AlreadyCurrent(7), got {other:?}"),
    }
}

#[test]
fn resolve_stage2_literal_only_current_row_returns_already_current() {
    let mut w = ws(7, 3, true, Some("DP-1"), vec![1], None);
    w.is_in_active_activity = true;
    let filtered = vec![&w];
    let sentinel = workspace_sentinel_names(&[]);
    let picked = PickerOutcome::Selected("idx 3 (current)".into());
    let names = activity_lookup(&[(1, "Work")]);
    match resolve_stage2_literal_only(picked, &sentinel, &filtered, Some(7), 1, &names) {
        Stage2ResolutionLiteralOnly::AlreadyCurrent(id) => assert_eq!(id, 7),
        other => panic!("expected AlreadyCurrent(7), got {other:?}"),
    }
}

#[test]
fn resolve_stage2_with_new_picked_multi_activity_label_returns_selected() {
    let mut w = ws(7, 3, false, Some("DP-1"), vec![1, 2], None);
    w.is_in_active_activity = true;
    let filtered = vec![&w];
    let sentinel = workspace_sentinel_names(&[]);
    let names = activity_lookup(&[(1, "Work"), (2, "Personal")]);
    let expected_label = workspace_label_with_annotations(&w, 1, false, &names);
    let picked = PickerOutcome::Selected(expected_label);
    match resolve_stage2_with_new(picked, &sentinel, &filtered, None, 1, &names) {
        Stage2ResolutionWithNew::Selected(ws) => assert_eq!(ws.id, 7),
        other => panic!("expected Selected(7), got {other:?}"),
    }
}

#[test]
fn resolve_stage2_literal_only_picked_multi_activity_label_returns_selected() {
    let w = ws_hidden(7, 0, Some("DP-1"), vec![1, 2], None);
    let filtered = vec![&w];
    let sentinel = workspace_sentinel_names(&[]);
    let names = activity_lookup(&[(1, "Work"), (2, "Personal")]);
    let expected_label = workspace_label_with_annotations(&w, 2, false, &names);
    let picked = PickerOutcome::Selected(expected_label);
    match resolve_stage2_literal_only(picked, &sentinel, &filtered, None, 2, &names) {
        Stage2ResolutionLiteralOnly::Selected(ws) => assert_eq!(ws.id, 7),
        other => panic!("expected Selected(7), got {other:?}"),
    }
}

#[test]
fn dispatch_stage2_with_new_already_current_emits_breadcrumb_and_no_move() {
    let mut client = MockClient::new();
    client.expect(
        Request::Activities,
        Ok(Response::Activities(vec![act(1, "Work", true)])),
    );
    client.expect(
        Request::Workspaces,
        Ok(Response::Workspaces(vec![
            ws(10, 0, true, Some("DP-1"), vec![1], Some(99)),
            ws(20, 1, false, Some("DP-1"), vec![1], None),
        ])),
    );
    let pick = |prompt: &str, items: &[String]| -> Result<PickerOutcome, CliError> {
        if prompt == "Move window to activity:" {
            Ok(PickerOutcome::Selected("Work".into()))
        } else {
            let current_row = items
                .iter()
                .find(|s| s.contains("(current)"))
                .expect("(current) row must be present")
                .clone();
            Ok(PickerOutcome::Selected(current_row))
        }
    };
    run_picker(&mut client, pick, no_new_activity_prompt, false, false)
        .expect("AlreadyCurrent must exit Ok");
    client.assert_consumed_in_order();
}

#[test]
fn dispatch_stage2_literal_only_already_current_emits_breadcrumb_and_no_move() {
    let mut client = MockClient::new();
    client.expect(
        Request::Activities,
        Ok(Response::Activities(vec![
            act(1, "Work", true),
            act(2, "Personal", false),
        ])),
    );
    let mut focused_ws = ws(10, 0, true, Some("DP-1"), vec![2], Some(99));
    focused_ws.is_in_active_activity = false;
    client.expect(
        Request::Workspaces,
        Ok(Response::Workspaces(vec![focused_ws])),
    );
    let pick = |prompt: &str, items: &[String]| -> Result<PickerOutcome, CliError> {
        if prompt == "Move window to activity:" {
            Ok(PickerOutcome::Selected("Personal".into()))
        } else {
            let current_row = items
                .iter()
                .find(|s| s.contains("(current)"))
                .expect("(current) row must be present")
                .clone();
            Ok(PickerOutcome::Selected(current_row))
        }
    };
    run_picker(&mut client, pick, no_new_activity_prompt, false, false)
        .expect("AlreadyCurrent must exit Ok");
    client.assert_consumed_in_order();
}

#[test]
fn dispatch_stage2_with_new_handles_response_no_op_already_on_target() {
    let mut client = MockClient::new();
    client.expect(
        Request::Activities,
        Ok(Response::Activities(vec![act(1, "Work", true)])),
    );
    client.expect(
        Request::Workspaces,
        Ok(Response::Workspaces(vec![
            ws(10, 0, true, Some("DP-1"), vec![1], Some(99)),
            ws(20, 1, false, Some("DP-1"), vec![1], None),
        ])),
    );
    client.expect(
        move_req(20),
        Ok(Response::NoOp(NoOpReason::AlreadyOnTarget {
            workspace_id: 20,
        })),
    );

    let pick = |prompt: &str, items: &[String]| -> Result<PickerOutcome, CliError> {
        if prompt == "Move window to activity:" {
            Ok(PickerOutcome::Selected("Work".into()))
        } else {
            assert_eq!(items[0], "idx 0 (current)");
            Ok(PickerOutcome::Selected(items[1].clone()))
        }
    };
    run_picker(&mut client, pick, no_new_activity_prompt, false, false)
        .expect("NoOp reply must exit Ok");
    client.assert_consumed_in_order();
}

#[test]
fn dispatch_stage2_literal_only_handles_response_no_op_already_on_target() {
    let mut client = MockClient::new();
    client.expect(
        Request::Activities,
        Ok(Response::Activities(vec![
            act(1, "Work", true),
            act(2, "Personal", false),
        ])),
    );
    let mut focused_ws = ws(10, 0, true, Some("DP-1"), vec![2], Some(99));
    focused_ws.is_in_active_activity = false;
    let other_ws = ws_hidden(20, 1, Some("DP-1"), vec![2], None);
    client.expect(
        Request::Workspaces,
        Ok(Response::Workspaces(vec![focused_ws, other_ws])),
    );
    client.expect(
        move_req(20),
        Ok(Response::NoOp(NoOpReason::AlreadyOnTarget {
            workspace_id: 20,
        })),
    );

    let pick = |prompt: &str, items: &[String]| -> Result<PickerOutcome, CliError> {
        if prompt == "Move window to activity:" {
            Ok(PickerOutcome::Selected("Personal".into()))
        } else {
            assert_eq!(items[0], "id 10 (current)");
            Ok(PickerOutcome::Selected(items[1].clone()))
        }
    };
    run_picker(&mut client, pick, no_new_activity_prompt, false, false)
        .expect("NoOp reply must exit Ok");
    client.assert_consumed_in_order();
}

#[test]
fn handle_move_outcome_no_op_payload_id_diverges_uses_payload_id_label() {
    let ws_20 = ws(20, 1, false, Some("DP-1"), vec![1], None);
    let mut ws_99 = ws(99, 5, false, Some("DP-1"), vec![1], None);
    ws_99.is_in_active_activity = true;
    let workspaces = vec![ws_20, ws_99];

    let msg = format_already_current_breadcrumb(99, &workspaces);
    assert!(
        msg.contains("idx 5"),
        "breadcrumb must contain workspace-99's label 'idx 5', got: {msg:?}",
    );
    assert!(
        !msg.contains("idx 1"),
        "breadcrumb must NOT contain workspace-20's label 'idx 1', got: {msg:?}",
    );

    let outcome = HandledOutcome::NoOp(NoOpReason::AlreadyOnTarget { workspace_id: 99 });
    outcome_of_move(outcome, 20, "Work", &workspaces)
        .expect("AlreadyOnTarget with diverged ids must return Ok");
}

#[test]
fn handle_move_outcome_known_no_op_variant_returns_ok() {
    let workspaces = vec![ws(10, 0, true, Some("DP-1"), vec![1], None)];
    let outcome = HandledOutcome::NoOp(NoOpReason::AlreadyOnTarget { workspace_id: 10 });
    let result = outcome_of_move(outcome, 10, "Work", &workspaces);
    assert!(result.is_ok(), "known AlreadyOnTarget must return Ok");
}

#[test]
fn compose_stage2_annotates_no_row_when_focused_window_workspace_not_in_filtered_set() {
    let b1 = ws_hidden(100, 0, Some("DP-1"), vec![2], None);
    let b2 = ws_hidden(101, 0, Some("DP-1"), vec![2], None);
    let filtered = vec![&b1, &b2];
    let sentinel = workspace_sentinel_names(&[]);
    let names = activity_lookup(&[(1, "Work"), (2, "Personal")]);
    let items = compose_stage2_items_with_new(&filtered, Some(5), &sentinel, 2, &names);
    assert!(
        items.iter().all(|s| !s.contains("(current)")),
        "no row may carry (current) when focused workspace is outside the filter set; got: {items:?}",
    );
}

#[test]
fn workspace_label_sticky_appends_sticky_suffix() {
    let mut w = ws(7, 2, false, Some("DP-1"), vec![1, 2], None);
    w.is_in_active_activity = true;
    w.is_sticky = true;
    let names = activity_lookup(&[(1, "Work"), (2, "Personal")]);
    let label = workspace_label_with_annotations(&w, 1, false, &names);
    assert!(
        label.ends_with(" [sticky]"),
        "sticky workspaces must carry [sticky] suffix; got: {label}",
    );
    assert!(
        !label.contains("[also in:"),
        "sticky branch must NOT emit [also in: …]; got: {label}",
    );
}

#[test]
fn workspace_label_multi_activity_lists_others_alphabetized() {
    let mut w = ws(7, 2, false, Some("DP-1"), vec![1, 2, 3], None);
    w.is_in_active_activity = true;
    let names = activity_lookup(&[(1, "Work"), (2, "Research"), (3, "Archive")]);
    let label = workspace_label_with_annotations(&w, 1, false, &names);
    assert!(
        label.ends_with(" [also in: Archive, Research]"),
        "multi-activity label must list other names alphabetized; got: {label}",
    );
}

#[test]
fn workspace_label_single_membership_has_no_also_in_annotation() {
    let mut w = ws(7, 2, false, Some("DP-1"), vec![1], None);
    w.is_in_active_activity = true;
    let names = activity_lookup(&[(1, "Work")]);
    let label = workspace_label_with_annotations(&w, 1, false, &names);
    assert!(
        !label.contains("[also in:"),
        "single-membership workspace must NOT emit [also in: …]; got: {label}",
    );
    assert!(
        !label.contains("[sticky]"),
        "non-sticky workspace must NOT emit [sticky]; got: {label}",
    );
}

#[test]
fn workspace_label_sticky_takes_precedence_over_also_in() {
    let mut w = ws(7, 2, false, Some("DP-1"), vec![1, 2, 3], None);
    w.is_in_active_activity = true;
    w.is_sticky = true;
    let names = activity_lookup(&[(1, "Work"), (2, "Personal"), (3, "Archive")]);
    let label = workspace_label_with_annotations(&w, 1, false, &names);
    assert!(
        label.contains("[sticky]"),
        "sticky must be emitted; got: {label}",
    );
    assert!(
        !label.contains("[also in:"),
        "sticky must take precedence over [also in: …]; got: {label}",
    );
}

#[test]
fn workspace_label_unknown_activity_id_in_activities_list_is_skipped() {
    let mut w = ws(7, 2, false, Some("DP-1"), vec![1, 2, 99], None);
    w.is_in_active_activity = true;
    let names = activity_lookup(&[(1, "Work"), (2, "Personal")]);
    let label = workspace_label_with_annotations(&w, 1, false, &names);
    assert!(
        !label.contains("99"),
        "unknown id must not leak into the rendered label; got: {label}",
    );
    assert!(
        label.contains("Personal"),
        "known names must still be listed; got: {label}",
    );
    assert_eq!(
        label.matches("[also in:").count(),
        1,
        "exactly one [also in: …] substring expected; got: {label}",
    );
}

#[test]
fn workspace_label_sticky_plus_current_renders_in_correct_order() {
    let mut w = ws(7, 2, false, Some("DP-1"), vec![1, 2], None);
    w.is_in_active_activity = true;
    w.is_sticky = true;
    let names = activity_lookup(&[(1, "Work"), (2, "Personal")]);
    let label = workspace_label_with_annotations(&w, 1, true, &names);
    assert!(
        label.ends_with("[sticky] (current)"),
        "suffix order must be {{base}}{{membership}}{{current}}; got: {label}",
    );
}

#[test]
fn workspace_label_multi_activity_plus_current_renders_in_correct_order() {
    let mut w = ws(7, 2, false, Some("DP-1"), vec![1, 2], None);
    w.is_in_active_activity = true;
    let names = activity_lookup(&[(1, "Work"), (2, "Personal")]);
    let label = workspace_label_with_annotations(&w, 1, true, &names);
    assert!(
        label.ends_with("[also in: Personal] (current)"),
        "suffix order must be {{base}}{{membership}}{{current}}; got: {label}",
    );
}

#[test]
fn resolve_stage1_recognises_current_activity_sentinel_with_underscore_fallback() {
    let acts = vec![act(1, "Work", true)];
    let sentinels = sentinel_names(&["« Current activity »"]);
    assert_eq!(sentinels.current, "__niri_activities_current_activity__");
    let picked = PickerOutcome::Selected("__niri_activities_current_activity__".into());
    match resolve_stage1(picked, &sentinels, &acts) {
        Stage1Resolution::CurrentActivity => {}
        other => panic!("expected CurrentActivity, got {other:?}"),
    }
}

#[test]
fn resolve_stage1_recognises_new_activity_sentinel() {
    let acts = vec![act(1, "Work", true)];
    let sentinels = sentinel_names(&["Work"]);
    assert_eq!(sentinels.new_activity, "« New activity »");
    let picked = PickerOutcome::Selected("« New activity »".into());
    match resolve_stage1(picked, &sentinels, &acts) {
        Stage1Resolution::NewActivity => {}
        other => panic!("expected NewActivity, got {other:?}"),
    }
}

#[test]
fn resolve_stage2_with_new_recognises_new_workspace_sentinel_with_underscore_fallback() {
    let a = ws(1, 0, false, Some("DP-1"), vec![1], None);
    let filtered = vec![&a];
    let sentinel = workspace_sentinel_names(&["« New workspace »"]);
    assert_eq!(sentinel, "__niri_activities_new_workspace__");
    let picked = PickerOutcome::Selected("__niri_activities_new_workspace__".into());
    match resolve_stage2_with_new(picked, &sentinel, &filtered, None, 1, &HashMap::new()) {
        Stage2ResolutionWithNew::NewWorkspace => {}
        other => panic!("expected NewWorkspace, got {other:?}"),
    }
}

#[test]
fn resolve_stage1_unknown_row_returns_unknown_not_cancelled() {
    let acts = vec![act(1, "Work", true)];
    let sentinels = sentinel_names(&["Work"]);
    let picked = PickerOutcome::Selected("NotAnActivity".into());
    match resolve_stage1(picked, &sentinels, &acts) {
        Stage1Resolution::Unknown(row) => assert_eq!(row, "NotAnActivity"),
        other => panic!("expected Unknown, got {other:?}"),
    }
}

#[test]
fn resolve_stage2_with_new_unknown_label_returns_unknown_not_cancelled() {
    let a = ws(1, 0, false, Some("DP-1"), vec![1], None);
    let filtered = vec![&a];
    let sentinel = workspace_sentinel_names(&["idx 0"]);
    let picked = PickerOutcome::Selected("not-a-workspace".into());
    match resolve_stage2_with_new(picked, &sentinel, &filtered, None, 1, &HashMap::new()) {
        Stage2ResolutionWithNew::Unknown(label) => assert_eq!(label, "not-a-workspace"),
        other => panic!("expected Unknown, got {other:?}"),
    }
}

#[test]
fn resolve_stage2_literal_only_unknown_label_returns_unknown_not_cancelled() {
    let a = ws(1, 0, false, Some("DP-1"), vec![1], None);
    let filtered = vec![&a];
    let sentinel = workspace_sentinel_names(&["idx 0"]);
    let picked = PickerOutcome::Selected("not-a-workspace".into());
    match resolve_stage2_literal_only(picked, &sentinel, &filtered, None, 1, &HashMap::new()) {
        Stage2ResolutionLiteralOnly::Unknown(label) => assert_eq!(label, "not-a-workspace"),
        other => panic!("expected Unknown, got {other:?}"),
    }
}

#[test]
fn resolve_stage2_literal_only_recognises_new_workspace_sentinel_when_threaded_through_resolver()
 {
    let a = ws(1, 0, false, Some("DP-1"), vec![1], None);
    let filtered = vec![&a];
    let sentinel = workspace_sentinel_names(&["idx 0"]);
    let picked = PickerOutcome::Selected(sentinel.to_owned());
    match resolve_stage2_literal_only(picked, &sentinel, &filtered, None, 1, &HashMap::new()) {
        Stage2ResolutionLiteralOnly::NewWorkspace => {}
        other => panic!("expected NewWorkspace, got {other:?}"),
    }
}

#[test]
fn dispatch_stage2_literal_only_new_workspace_resolver_arm_routes_to_malformed_response_server()
{
    let mut client = MockClient::new();
    client.expect(
        Request::Activities,
        Ok(Response::Activities(vec![
            act(1, "Work", true),
            act(2, "Personal", false),
        ])),
    );
    client.expect(
        Request::Workspaces,
        Ok(Response::Workspaces(vec![
            ws(10, 0, true, Some("DP-1"), vec![1], Some(99)),
            ws(20, 0, false, Some("DP-1"), vec![2], None),
        ])),
    );
    let pick = |prompt: &str, _items: &[String]| -> Result<PickerOutcome, CliError> {
        if prompt == "Move window to activity:" {
            Ok(PickerOutcome::Selected("Personal".into()))
        } else {
            Ok(PickerOutcome::Selected("« New workspace »".into()))
        }
    };
    let err = run_picker(&mut client, pick, no_new_activity_prompt, false, false).expect_err(
        "synthetic sentinel on literal-only path must surface as MalformedResponse",
    );
    let cli_err = err.typed_cause()
        .expect("CliError must be in chain");
    assert_eq!(cli_err.exit_code(), 65);
    match cli_err {
        CliError::MalformedResponse(MalformedResponseSource::Server(msg)) => {
            assert_eq!(
                msg,
                "stage-2 literal-only path produced new-workspace sentinel",
            );
        }
        other => panic!("expected MalformedResponse(Server), got {other:?}"),
    }
    client.assert_consumed_in_order();
}

#[test]
fn run_named_dispatches_move_window_to_workspace_with_id_focus_false_window_none() {
    let mut client = MockClient::new();
    client.expect(
        Request::Activities,
        Ok(Response::Activities(vec![
            act(1, "Work", true),
            act(2, "Personal", false),
        ])),
    );
    client.expect(
        Request::Workspaces,
        Ok(Response::Workspaces(vec![
            ws(10, 0, true, Some("DP-1"), vec![1], Some(99)),
            ws(20, 0, false, Some("DP-1"), vec![2], None),
        ])),
    );
    client.expect(move_req(20), Ok(Response::Handled));

    run(&mut client, "Personal", false, false).expect("named-arg succeeds");
    client.assert_consumed_in_order();
}

#[test]
fn run_named_unknown_activity_maps_to_activity_not_found_exit_66() {
    let mut client = MockClient::new();
    client.expect(
        Request::Activities,
        Ok(Response::Activities(vec![act(1, "Work", true)])),
    );
    let err = run(&mut client, "Nope", false, false).expect_err("unknown name must fail");
    let cli_err = err.typed_cause()
        .expect("CliError must be in chain");
    match cli_err {
        CliError::ActivityNotFound(name) => assert_eq!(name, "Nope"),
        other => panic!("expected ActivityNotFound, got {other:?}"),
    }
    assert_eq!(cli_err.exit_code(), 66);
    client.assert_consumed_in_order();
}

#[test]
fn run_named_no_trailing_empty_for_non_active_activity_eprintln_exits_zero() {
    let mut client = MockClient::new();
    client.expect(
        Request::Activities,
        Ok(Response::Activities(vec![
            act(1, "Work", true),
            act(2, "Personal", false),
        ])),
    );
    client.expect(
        Request::Workspaces,
        Ok(Response::Workspaces(vec![
            ws(10, 0, true, Some("DP-1"), vec![1], Some(99)),
            ws(20, 0, false, Some("DP-1"), vec![2], Some(77)),
        ])),
    );
    run(&mut client, "Personal", false, false).expect("zero-case must exit Ok");
    client.assert_consumed_in_order();
}

#[test]
fn run_named_no_workspaces_on_focused_output_eprintln_exits_zero() {
    let mut client = MockClient::new();
    client.expect(
        Request::Activities,
        Ok(Response::Activities(vec![
            act(1, "Work", true),
            act(2, "Personal", false),
        ])),
    );
    client.expect(
        Request::Workspaces,
        Ok(Response::Workspaces(vec![
            ws(10, 0, true, Some("DP-1"), vec![1], None),
            ws(20, 0, false, Some("DP-2"), vec![2], None),
        ])),
    );
    run(&mut client, "Personal", false, false).expect("zero-case must exit Ok");
    client.assert_consumed_in_order();
}

#[test]
fn run_picker_empty_activities_short_circuits_without_spawning_picker() {
    let mut client = MockClient::new();
    client.expect(Request::Activities, Ok(Response::Activities(vec![])));
    let pick = |_prompt: &str, _items: &[String]| -> Result<PickerOutcome, CliError> {
        panic!("stage-1 picker must NOT be spawned for empty activities list");
    };
    run_picker(&mut client, pick, no_new_activity_prompt, false, false)
        .expect("empty activities must exit Ok");
    client.assert_consumed_in_order();
}

#[test]
fn run_picker_stage1_cancel_skips_dispatch() {
    let mut client = MockClient::new();
    client.expect(
        Request::Activities,
        Ok(Response::Activities(vec![act(1, "Work", true)])),
    );
    let pick = |_prompt: &str, _items: &[String]| -> Result<PickerOutcome, CliError> {
        Ok(PickerOutcome::Cancelled)
    };
    run_picker(&mut client, pick, no_new_activity_prompt, false, false)
        .expect("stage1 cancel is silent Ok");
    client.assert_consumed_in_order();
}

#[test]
fn run_picker_stage1_current_sentinel_proceeds_to_stage2_with_active_activity() {
    let mut client = MockClient::new();
    client.expect(
        Request::Activities,
        Ok(Response::Activities(vec![
            act(1, "Work", true),
            act(2, "Personal", false),
        ])),
    );
    client.expect(
        Request::Workspaces,
        Ok(Response::Workspaces(vec![
            ws(10, 0, true, Some("DP-1"), vec![1], Some(99)),
            ws(20, 1, false, Some("DP-1"), vec![1], None),
        ])),
    );
    client.expect(move_req(20), Ok(Response::Handled));

    let pick = |prompt: &str, items: &[String]| -> Result<PickerOutcome, CliError> {
        if prompt == "Move window to activity:" {
            assert_eq!(items[0], "« Current activity »");
            Ok(PickerOutcome::Selected("« Current activity »".into()))
        } else if prompt == "Move window to workspace:" {
            assert!(items.last().is_some_and(|s| s == "« New workspace »"));
            assert_eq!(items[0], "idx 0 (current)");
            Ok(PickerOutcome::Selected(items[1].clone()))
        } else {
            panic!("unexpected prompt: {prompt}");
        }
    };
    run_picker(&mut client, pick, no_new_activity_prompt, false, false)
        .expect("happy path succeeds");
    client.assert_consumed_in_order();
}

#[test]
fn run_picker_stage2_cancel_skips_dispatch() {
    let mut client = MockClient::new();
    client.expect(
        Request::Activities,
        Ok(Response::Activities(vec![act(1, "Work", true)])),
    );
    client.expect(
        Request::Workspaces,
        Ok(Response::Workspaces(vec![ws(
            10,
            0,
            true,
            Some("DP-1"),
            vec![1],
            None,
        )])),
    );
    let pick = |prompt: &str, _items: &[String]| -> Result<PickerOutcome, CliError> {
        if prompt == "Move window to activity:" {
            Ok(PickerOutcome::Selected("Work".into()))
        } else {
            Ok(PickerOutcome::Cancelled)
        }
    };
    run_picker(&mut client, pick, no_new_activity_prompt, false, false)
        .expect("stage2 cancel is silent Ok");
    client.assert_consumed_in_order();
}

#[test]
fn run_picker_stage2_new_workspace_sentinel_resolves_to_trailing_empty() {
    let mut client = MockClient::new();
    client.expect(
        Request::Activities,
        Ok(Response::Activities(vec![act(1, "Work", true)])),
    );
    client.expect(
        Request::Workspaces,
        Ok(Response::Workspaces(vec![
            ws(10, 0, true, Some("DP-1"), vec![1], Some(99)),
            ws(20, 1, false, Some("DP-1"), vec![1], Some(88)),
            ws(30, 2, false, Some("DP-1"), vec![1], None),
        ])),
    );
    client.expect(move_req(30), Ok(Response::Handled));

    let pick = |prompt: &str, _items: &[String]| -> Result<PickerOutcome, CliError> {
        if prompt == "Move window to activity:" {
            Ok(PickerOutcome::Selected("Work".into()))
        } else {
            Ok(PickerOutcome::Selected("« New workspace »".into()))
        }
    };
    run_picker(&mut client, pick, no_new_activity_prompt, false, false)
        .expect("new-workspace sentinel succeeds");
    client.assert_consumed_in_order();
}

#[test]
fn run_picker_stage2_named_activity_non_active_no_workspaces_eprintln_exits_zero() {
    let mut client = MockClient::new();
    client.expect(
        Request::Activities,
        Ok(Response::Activities(vec![
            act(1, "Work", true),
            act(2, "Personal", false),
        ])),
    );
    client.expect(
        Request::Workspaces,
        Ok(Response::Workspaces(vec![
            ws(10, 0, true, Some("DP-1"), vec![1], None),
        ])),
    );
    let pick = |prompt: &str, _items: &[String]| -> Result<PickerOutcome, CliError> {
        if prompt == "Move window to activity:" {
            Ok(PickerOutcome::Selected("Personal".into()))
        } else {
            panic!("stage 2 must NOT be spawned for non-active activity with no workspaces");
        }
    };
    run_picker(&mut client, pick, no_new_activity_prompt, false, false)
        .expect("zero-case must exit Ok");
    client.assert_consumed_in_order();
}

#[test]
fn run_picker_new_activity_happy_path_creates_then_dispatches_stage2() {
    let mut client = MockClient::new();
    client.expect(
        Request::Activities,
        Ok(Response::Activities(vec![act(1, "Work", true)])),
    );
    client.expect(
        Request::Action(Action::CreateActivity {
            name: "Personal".to_owned(),
        }),
        Ok(Response::Handled),
    );
    client.expect(
        Request::Activities,
        Ok(Response::Activities(vec![
            act(1, "Work", true),
            act(2, "Personal", false),
        ])),
    );
    client.expect(
        Request::Workspaces,
        Ok(Response::Workspaces(vec![
            ws(10, 0, true, Some("DP-1"), vec![1], Some(99)),
            ws(20, 0, false, Some("DP-1"), vec![2], None),
        ])),
    );
    client.expect(move_req(20), Ok(Response::Handled));

    let pick = |prompt: &str, _items: &[String]| -> Result<PickerOutcome, CliError> {
        if prompt == "Move window to activity:" {
            Ok(PickerOutcome::Selected("« New activity »".into()))
        } else {
            Ok(PickerOutcome::Selected("id 20".into()))
        }
    };
    let prompt = |_prompt: &str| -> Result<NameOutcome, CliError> {
        Ok(NameOutcome::Typed("Personal".to_owned()))
    };
    run_picker(&mut client, pick, prompt, false, false)
        .expect("new-activity happy path must succeed");
    client.assert_consumed_in_order();
}

#[test]
fn run_picker_new_activity_is_active_uses_with_new_stage2_path() {
    let mut client = MockClient::new();
    client.expect(
        Request::Activities,
        Ok(Response::Activities(vec![act(1, "Work", true)])),
    );
    client.expect(
        Request::Action(Action::CreateActivity {
            name: "Personal".to_owned(),
        }),
        Ok(Response::Handled),
    );
    client.expect(
        Request::Activities,
        Ok(Response::Activities(vec![
            act(1, "Work", false),
            act(2, "Personal", true),
        ])),
    );
    client.expect(
        Request::Workspaces,
        Ok(Response::Workspaces(vec![
            ws(10, 0, false, Some("DP-1"), vec![1], None),
            ws(20, 0, true, Some("DP-1"), vec![2], None),
        ])),
    );
    client.expect(move_req(20), Ok(Response::Handled));

    let pick = |prompt: &str, items: &[String]| -> Result<PickerOutcome, CliError> {
        if prompt == "Move window to activity:" {
            Ok(PickerOutcome::Selected("« New activity »".into()))
        } else {
            assert!(
                items.last().is_some_and(|s| s == "« New workspace »"),
                "with-new path must offer « New workspace »; items: {items:?}",
            );
            Ok(PickerOutcome::Selected("« New workspace »".into()))
        }
    };
    let prompt_fn = |_prompt: &str| -> Result<NameOutcome, CliError> {
        Ok(NameOutcome::Typed("Personal".to_owned()))
    };
    run_picker(&mut client, pick, prompt_fn, false, false)
        .expect("new-activity active path must succeed");
    client.assert_consumed_in_order();
}

#[test]
fn run_picker_stage1_wrong_activities_variant_is_malformed_exit_65() {
    let mut client = MockClient::new();
    client.expect(
        Request::Activities,
        Ok(Response::Version("v".into())),
    );
    let pick = |_prompt: &str, _items: &[String]| -> Result<PickerOutcome, CliError> {
        panic!("stage 1 must NOT be spawned on malformed Activities response");
    };
    let err = run_picker(&mut client, pick, no_new_activity_prompt, false, false)
        .expect_err("wrong variant must fail");
    let cli_err = err.typed_cause()
        .expect("CliError must be in chain");
    assert_eq!(cli_err.exit_code(), 65);
    match cli_err {
        CliError::MalformedResponse(MalformedResponseSource::WrongVariant {
            expected, ..
        }) => assert_eq!(*expected, "Response::Activities"),
        other => panic!("expected WrongVariant, got {other:?}"),
    }
    client.assert_consumed_in_order();
}

#[test]
fn run_picker_stage2_wrong_workspaces_variant_is_malformed_exit_65() {
    let mut client = MockClient::new();
    client.expect(
        Request::Activities,
        Ok(Response::Activities(vec![act(1, "Work", true)])),
    );
    client.expect(
        Request::Workspaces,
        Ok(Response::Version("v".into())),
    );
    let pick = |prompt: &str, _items: &[String]| -> Result<PickerOutcome, CliError> {
        if prompt == "Move window to activity:" {
            Ok(PickerOutcome::Selected("Work".into()))
        } else {
            panic!("stage 2 must NOT be spawned on malformed Workspaces response");
        }
    };
    let err = run_picker(&mut client, pick, no_new_activity_prompt, false, false)
        .expect_err("wrong variant must fail");
    let cli_err = err.typed_cause()
        .expect("CliError must be in chain");
    assert_eq!(cli_err.exit_code(), 65);
    match cli_err {
        CliError::MalformedResponse(MalformedResponseSource::WrongVariant {
            expected, ..
        }) => assert_eq!(*expected, "Response::Workspaces"),
        other => panic!("expected WrongVariant, got {other:?}"),
    }
    client.assert_consumed_in_order();
}

#[test]
fn run_here_picker_dispatches_against_current_activity_only() {
    let mut client = MockClient::new();
    client.expect(
        Request::Activities,
        Ok(Response::Activities(vec![
            act(1, "Work", true),
            act(2, "Personal", false),
        ])),
    );
    client.expect(
        Request::Workspaces,
        Ok(Response::Workspaces(vec![
            ws(10, 0, true, Some("DP-1"), vec![1], Some(99)),
            ws(11, 1, false, Some("DP-1"), vec![1], None),
            ws(20, 0, false, Some("DP-1"), vec![2], None),
        ])),
    );
    client.expect(move_req(11), Ok(Response::Handled));

    let pick = |prompt: &str, items: &[String]| -> Result<PickerOutcome, CliError> {
        assert_eq!(prompt, "Move window to workspace:");
        assert_eq!(items.len(), 3, "items: {items:?}");
        assert!(items.last().is_some_and(|s| s == "« New workspace »"));
        assert_eq!(items[0], "idx 0 (current)");
        Ok(PickerOutcome::Selected(items[1].clone()))
    };
    run_here_picker(&mut client, pick, false, false).expect("happy path");
    client.assert_consumed_in_order();
}

#[test]
fn run_here_picker_cancel_skips_dispatch() {
    let mut client = MockClient::new();
    client.expect(
        Request::Activities,
        Ok(Response::Activities(vec![act(1, "Work", true)])),
    );
    client.expect(
        Request::Workspaces,
        Ok(Response::Workspaces(vec![ws(
            10,
            0,
            true,
            Some("DP-1"),
            vec![1],
            None,
        )])),
    );
    let pick = |_prompt: &str, _items: &[String]| -> Result<PickerOutcome, CliError> {
        Ok(PickerOutcome::Cancelled)
    };
    run_here_picker(&mut client, pick, false, false).expect("cancellation is silent Ok");
    client.assert_consumed_in_order();
}

#[test]
fn run_here_picker_new_workspace_sentinel_resolves_to_trailing_empty() {
    let mut client = MockClient::new();
    client.expect(
        Request::Activities,
        Ok(Response::Activities(vec![act(1, "Work", true)])),
    );
    client.expect(
        Request::Workspaces,
        Ok(Response::Workspaces(vec![
            ws(10, 0, true, Some("DP-1"), vec![1], Some(42)),
            ws(20, 1, false, Some("DP-1"), vec![1], None),
        ])),
    );
    client.expect(move_req(20), Ok(Response::Handled));

    let pick = |_prompt: &str, _items: &[String]| -> Result<PickerOutcome, CliError> {
        Ok(PickerOutcome::Selected("« New workspace »".into()))
    };
    run_here_picker(&mut client, pick, false, false).expect("new-workspace sentinel succeeds");
    client.assert_consumed_in_order();
}

#[test]
fn run_here_picker_no_active_activity_routes_to_malformed_exit_65() {
    let mut client = MockClient::new();
    client.expect(
        Request::Activities,
        Ok(Response::Activities(vec![
            act(1, "Work", false),
            act(2, "Personal", false),
        ])),
    );
    let pick = |_prompt: &str, _items: &[String]| -> Result<PickerOutcome, CliError> {
        panic!("picker must NOT be spawned when no active activity");
    };
    let err = run_here_picker(&mut client, pick, false, false)
        .expect_err("no active activity must fail");
    let cli_err = err.typed_cause()
        .expect("CliError must be in chain");
    assert_eq!(cli_err.exit_code(), 65);
    match cli_err {
        CliError::MalformedResponse(MalformedResponseSource::Server(msg)) => {
            assert_eq!(msg, "no active activity");
        }
        other => panic!("expected MalformedResponse(Server), got {other:?}"),
    }
    client.assert_consumed_in_order();
}

#[test]
fn run_picker_stage1_new_activity_empty_name_rejects_as_usage_exit_64() {
    let mut client = MockClient::new();
    client.expect(
        Request::Activities,
        Ok(Response::Activities(vec![act(1, "Work", true)])),
    );
    let pick = |_prompt: &str, _items: &[String]| -> Result<PickerOutcome, CliError> {
        Ok(PickerOutcome::Selected("« New activity »".into()))
    };
    let prompt = |_prompt: &str| -> Result<NameOutcome, CliError> { Ok(NameOutcome::Unnamed) };
    let err = run_picker(&mut client, pick, prompt, false, false)
        .expect_err("empty-Enter must surface as Usage");
    let cli_err = err.typed_cause()
        .expect("CliError must be in chain");
    assert_eq!(cli_err.exit_code(), 64);
    match cli_err {
        CliError::Usage(msg) => {
            assert!(
                msg.contains("must not be empty"),
                "Usage message must explain the empty-name cause; got: {msg}",
            );
        }
        other => panic!("expected Usage, got {other:?}"),
    }
    client.assert_consumed_in_order();
}

fn create_activity_req(name: &str) -> Request {
    Request::Action(Action::CreateActivity {
        name: name.to_owned(),
    })
}

#[test]
fn create_activity_via_ipc_name_already_exists_maps_to_cant_create() {
    let mut client = MockClient::new();
    client.expect(
        create_activity_req("Work"),
        Err("activity name already exists".to_owned()),
    );
    let err = create_activity_via_ipc(&mut client, "Work").expect_err("collision must fail");
    let cli_err = err.typed_cause()
        .expect("CliError must be in chain");
    match cli_err {
        CliError::CantCreate(msg) => {
            assert!(
                msg.contains("already exists"),
                "message must mention cause; got: {msg}"
            );
        }
        other => panic!("expected CantCreate, got {other:?}"),
    }
    assert_eq!(cli_err.exit_code(), 73);
    client.assert_consumed_in_order();
}

#[test]
fn create_activity_via_ipc_name_must_not_be_empty_maps_to_usage() {
    let mut client = MockClient::new();
    client.expect(
        create_activity_req("   "),
        Err("activity name must not be empty".to_owned()),
    );
    let err = create_activity_via_ipc(&mut client, "   ").expect_err("empty-name must fail");
    let cli_err = err.typed_cause()
        .expect("CliError must be in chain");
    match cli_err {
        CliError::Usage(msg) => {
            assert_eq!(msg, "activity name must not be empty");
        }
        other => panic!("expected Usage, got {other:?}"),
    }
    assert_eq!(cli_err.exit_code(), 64);
    client.assert_consumed_in_order();
}

#[test]
fn create_activity_via_ipc_name_already_exists_suffixed_routes_to_malformed_response_server() {
    let mut client = MockClient::new();
    client.expect(
        create_activity_req("Work"),
        Err("activity name already exists: Work".to_owned()),
    );
    let err = create_activity_via_ipc(&mut client, "Work")
        .expect_err("suffixed string must not match CantCreate");
    let cli_err = err.typed_cause()
        .expect("CliError must be in chain");
    match cli_err {
        CliError::MalformedResponse(MalformedResponseSource::Server(_)) => {}
        other => panic!("expected MalformedResponse(Server), not CantCreate; got {other:?}"),
    }
    assert_eq!(cli_err.exit_code(), 65);
    client.assert_consumed_in_order();
}

#[test]
fn create_activity_via_ipc_name_must_not_be_empty_capitalized_routes_to_malformed_response_server()
 {
    let mut client = MockClient::new();
    client.expect(
        create_activity_req("   "),
        Err("Activity name must not be empty".to_owned()),
    );
    let err = create_activity_via_ipc(&mut client, "   ")
        .expect_err("capitalized string must not match Usage");
    let cli_err = err.typed_cause()
        .expect("CliError must be in chain");
    match cli_err {
        CliError::MalformedResponse(MalformedResponseSource::Server(_)) => {}
        other => panic!("expected MalformedResponse(Server), not Usage; got {other:?}"),
    }
    assert_eq!(cli_err.exit_code(), 65);
    client.assert_consumed_in_order();
}

#[test]
fn create_activity_via_ipc_context_wrapper_does_not_bury_cli_error_variants() {
    let mut client = MockClient::new();
    client.expect(
        create_activity_req("Work"),
        Err("activity name already exists".to_owned()),
    );
    let err = create_activity_via_ipc(&mut client, "Work").expect_err("must fail");
    let formatted = err.describe();
    assert!(
        formatted.contains("creating activity from move-window picker"),
        "context string missing from error chain: {formatted}",
    );
    let cli_err = err.typed_cause()
        .expect("CliError must survive .context() wrapping");
    assert!(
        matches!(cli_err, CliError::CantCreate(_)),
        "CantCreate variant must survive .context(); got {cli_err:?}",
    );
    client.assert_consumed_in_order();
}

#[test]
fn dispatch_stage2_literal_only_empty_filtered_short_circuits_with_diagnostic() {
    let mut client = MockClient::new();
    client.expect(
        Request::Activities,
        Ok(Response::Activities(vec![
            act(1, "Work", true),
            act(2, "Personal", false),
        ])),
    );
    client.expect(
        Request::Workspaces,
        Ok(Response::Workspaces(vec![
            ws(10, 0, true, Some("DP-1"), vec![1], None),
            ws(20, 0, false, Some("DP-2"), vec![2], None),
        ])),
    );
    let pick = |prompt: &str, _items: &[String]| -> Result<PickerOutcome, CliError> {
        if prompt == "Move window to activity:" {
            Ok(PickerOutcome::Selected("Personal".into()))
        } else {
            panic!("stage 2 must NOT be spawned on literal-only empty zero-case");
        }
    };
    run_picker(&mut client, pick, no_new_activity_prompt, false, false)
        .expect("zero-case must exit Ok");
    client.assert_consumed_in_order();
}

#[test]
fn dispatch_stage2_with_new_returns_server_error_when_trailing_empty_invariant_breached() {
    let mut client = MockClient::new();
    client.expect(
        Request::Activities,
        Ok(Response::Activities(vec![act(1, "Work", true)])),
    );
    client.expect(
        Request::Workspaces,
        Ok(Response::Workspaces(vec![
            ws(10, 0, true, Some("DP-1"), vec![1], Some(99)),
            ws(20, 1, false, Some("DP-1"), vec![1], Some(88)),
        ])),
    );
    let pick = |_prompt: &str, _items: &[String]| -> Result<PickerOutcome, CliError> {
        Ok(PickerOutcome::Selected("« New workspace »".into()))
    };
    let err = run_here_picker(&mut client, pick, false, false)
        .expect_err("trailing-empty breach must surface as MalformedResponse");
    let cli_err = err.typed_cause()
        .expect("CliError must be in chain");
    assert_eq!(cli_err.exit_code(), 65);
    match cli_err {
        CliError::MalformedResponse(MalformedResponseSource::Server(msg)) => {
            assert_eq!(msg, "trailing-empty workspace expected for active activity");
        }
        other => panic!("expected MalformedResponse(Server), got {other:?}"),
    }
    client.assert_consumed_in_order();
}

#[test]
fn capture_focused_window_id_returns_active_window_when_focused_workspace_has_window() {
    let workspaces = vec![
        ws(1, 0, false, Some("DP-1"), vec![1], None),
        ws(2, 1, true, Some("DP-1"), vec![1], Some(42)),
    ];
    assert_eq!(capture_focused_window_id(&workspaces), Some(42));
}

#[test]
fn capture_focused_window_id_returns_none_when_focused_workspace_has_no_active_window() {
    let workspaces = vec![ws(1, 0, true, Some("DP-1"), vec![1], None)];
    assert_eq!(capture_focused_window_id(&workspaces), None);
}

#[test]
fn capture_focused_window_id_returns_none_when_no_workspace_is_focused() {
    let workspaces = vec![ws(1, 0, false, Some("DP-1"), vec![1], Some(42))];
    assert_eq!(capture_focused_window_id(&workspaces), None);
}

#[test]
fn run_with_follow_and_captured_window_dispatches_move_with_window_id_some() {
    let mut client = MockClient::new();
    client.expect(
        Request::Activities,
        Ok(Response::Activities(vec![
            act(1, "Work", true),
            act(2, "Personal", false),
        ])),
    );
    client.expect(
        Request::Workspaces,
        Ok(Response::Workspaces(vec![
            ws(10, 0, true, Some("DP-1"), vec![1], Some(99)),
            ws(20, 0, false, Some("DP-1"), vec![2], None),
        ])),
    );
    client.expect(move_req_with_window(20, 99), Ok(Response::Handled));

    run(&mut client, "Personal", true, false).expect("--follow named-arg succeeds");
    client.assert_consumed_in_order();
}

#[test]
fn run_with_follow_and_no_captured_window_falls_back_to_window_id_none_with_eprintln() {
    let mut client = MockClient::new();
    client.expect(
        Request::Activities,
        Ok(Response::Activities(vec![
            act(1, "Work", true),
            act(2, "Personal", false),
        ])),
    );
    client.expect(
        Request::Workspaces,
        Ok(Response::Workspaces(vec![
            ws(10, 0, true, Some("DP-1"), vec![1], None),
            ws(20, 0, false, Some("DP-1"), vec![2], None),
        ])),
    );
    client.expect(move_req(20), Ok(Response::Handled));

    run(&mut client, "Personal", true, false).expect("--follow fallback succeeds");
    client.assert_consumed_in_order();
}

#[test]
fn run_without_follow_keeps_window_id_none_regardless_of_active_window() {
    let mut client = MockClient::new();
    client.expect(
        Request::Activities,
        Ok(Response::Activities(vec![
            act(1, "Work", true),
            act(2, "Personal", false),
        ])),
    );
    client.expect(
        Request::Workspaces,
        Ok(Response::Workspaces(vec![
            ws(10, 0, true, Some("DP-1"), vec![1], Some(99)),
            ws(20, 0, false, Some("DP-1"), vec![2], None),
        ])),
    );
    client.expect(move_req(20), Ok(Response::Handled));

    run(&mut client, "Personal", false, false).expect("no-follow named-arg succeeds");
    client.assert_consumed_in_order();
}

#[test]
fn dispatch_stage2_with_new_with_follow_threads_captured_window_id_into_move() {
    let mut client = MockClient::new();
    client.expect(
        Request::Activities,
        Ok(Response::Activities(vec![act(1, "Work", true)])),
    );
    client.expect(
        Request::Workspaces,
        Ok(Response::Workspaces(vec![
            ws(10, 0, true, Some("DP-1"), vec![1], Some(99)),
            ws(20, 1, false, Some("DP-1"), vec![1], None),
        ])),
    );
    client.expect(move_req_with_window(20, 99), Ok(Response::Handled));

    let pick = |_prompt: &str, items: &[String]| -> Result<PickerOutcome, CliError> {
        assert_eq!(items[0], "idx 0 (current)");
        Ok(PickerOutcome::Selected(items[1].clone()))
    };
    run_here_picker(&mut client, pick, true, false).expect("--follow stage 2 succeeds");
    client.assert_consumed_in_order();
}

#[test]
fn run_picker_with_follow_threads_window_id_through_literal_only_stage2() {
    let mut client = MockClient::new();
    client.expect(
        Request::Activities,
        Ok(Response::Activities(vec![
            act(1, "Work", true),
            act(2, "Personal", false),
        ])),
    );
    let mut personal_ws = ws(20, 0, false, Some("DP-1"), vec![2], None);
    personal_ws.is_in_active_activity = false;
    client.expect(
        Request::Workspaces,
        Ok(Response::Workspaces(vec![
            ws(10, 0, true, Some("DP-1"), vec![1], Some(99)),
            personal_ws,
        ])),
    );
    client.expect(move_req_with_window(20, 99), Ok(Response::Handled));

    let pick = |prompt: &str, items: &[String]| -> Result<PickerOutcome, CliError> {
        if prompt == "Move window to activity:" {
            Ok(PickerOutcome::Selected("Personal".into()))
        } else {
            assert!(
                items.iter().all(|s| s != "« New workspace »"),
                "literal-only path must not offer « New workspace »; items: {items:?}",
            );
            Ok(PickerOutcome::Selected(items[0].clone()))
        }
    };
    run_picker(&mut client, pick, no_new_activity_prompt, true, false)
        .expect("--follow literal-only stage 2 succeeds");
    client.assert_consumed_in_order();
}

#[test]
fn dispatch_stage2_with_new_new_workspace_arm_with_follow_threads_captured_window_id() {
    let mut client = MockClient::new();
    client.expect(
        Request::Activities,
        Ok(Response::Activities(vec![act(1, "Work", true)])),
    );
    client.expect(
        Request::Workspaces,
        Ok(Response::Workspaces(vec![
            ws(10, 0, true, Some("DP-1"), vec![1], Some(99)),
            ws(20, 1, false, Some("DP-1"), vec![1], None),
        ])),
    );
    client.expect(move_req_with_window(20, 99), Ok(Response::Handled));

    let pick = |_prompt: &str, _items: &[String]| -> Result<PickerOutcome, CliError> {
        Ok(PickerOutcome::Selected("« New workspace »".into()))
    };
    run_here_picker(&mut client, pick, true, false)
        .expect("--follow new-workspace arm succeeds");
    client.assert_consumed_in_order();
}

#[test]
fn run_with_follow_no_focused_workspace_exits_65_before_capture() {
    let mut client = MockClient::new();
    client.expect(
        Request::Activities,
        Ok(Response::Activities(vec![
            act(1, "Work", true),
            act(2, "Personal", false),
        ])),
    );
    client.expect(
        Request::Workspaces,
        Ok(Response::Workspaces(vec![
            ws(10, 0, false, Some("DP-1"), vec![1], Some(99)),
            ws(20, 0, false, Some("DP-1"), vec![2], None),
        ])),
    );
    let err = run(&mut client, "Personal", true, false)
        .expect_err("no focused workspace must fail with exit 65");
    let cli_err = err.typed_cause()
        .expect("CliError must be in chain");
    assert_eq!(cli_err.exit_code(), 65);
    match cli_err {
        CliError::MalformedResponse(MalformedResponseSource::Server(msg)) => {
            assert_eq!(
                msg.as_str(),
                "no focused workspace",
                "synthetic error string must be exact; got: {msg}",
            );
        }
        other => panic!("expected MalformedResponse(Server), got {other:?}"),
    }
    client.assert_consumed_in_order();
}

#[test]
fn sort_for_picker_does_not_depend_on_the_order_of_the_list() {
    let mut a = ws(7, 1, false, Some("DP-1"), vec![1], None);
    a.is_in_active_activity = true;
    let b = ws_hidden(5, 0, Some("DP-1"), vec![2], None);
    let c = ws_hidden(9, 0, Some("DP-1"), vec![2], None);
    for mut listed in [vec![&a, &b, &c], vec![&c, &b, &a], vec![&b, &a, &c]] {
        sort_for_picker(&mut listed);
        assert_eq!(listed.iter().map(|w| w.id).collect::<Vec<_>>(), vec![7, 5, 9]);
    }
}

#[test]
fn special_rows_differ_from_all_names_and_labels() {
    let fallback = "__niri_activities_new_workspace__";
    let longer = "__niri_activities_new_workspace___";
    let labels = ["\u{ab} New workspace \u{bb}", fallback, longer];
    assert_eq!(workspace_sentinel_names(&labels), "__niri_activities_new_workspace____");
    assert_eq!(workspace_sentinel_names(&[fallback]), "\u{ab} New workspace \u{bb}");
    let names = ["\u{ab} Current activity \u{bb}", "__niri_activities_current_activity__"];
    let s = sentinel_names(&names);
    assert_eq!(s.current, "__niri_activities_current_activity___");
    assert_eq!(s.new_activity, "\u{ab} New activity \u{bb}");
}

#[test]
fn the_focused_workspace_is_not_understood_without_its_mark() {
    let mut w = ws(7, 3, true, Some("DP-1"), vec![1], None);
    w.is_in_active_activity = true;
    let filtered = vec![&w];
    let names = HashMap::from([(1, "Work".to_owned())]);
    let sentinel = workspace_sentinel_names(&["idx 3"]);
    let picked = || PickerOutcome::Selected("idx 3".to_owned());
    match resolve_stage2_with_new(picked(), &sentinel, &filtered, Some(7), 1, &names) {
        Stage2ResolutionWithNew::Unknown(row) => assert_eq!(row, "idx 3"),
        other => panic!("expected Unknown, got {other:?}"),
    }
    match resolve_stage2_literal_only(picked(), &sentinel, &filtered, Some(7), 1, &names) {
        Stage2ResolutionLiteralOnly::Unknown(row) => assert_eq!(row, "idx 3"),
        other => panic!("expected Unknown, got {other:?}"),
    }
    match resolve_stage2_with_new(picked(), &sentinel, &filtered, Some(8), 1, &names) {
        Stage2ResolutionWithNew::Selected(chosen) => assert_eq!(chosen.id, 7),
        other => panic!("expected Selected, got {other:?}"),
    }
}
