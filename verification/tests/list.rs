//! The `list` subcommand.

use jiji_activities::list;
use jiji_activities::cli::Order;
use jiji_activities::error::{
    Cause,
    CliError,
    Failure,
    IoFailure,
    IoKind,
    MalformedResponseSource,
    is_stdout_pipe_closed,
    map_exit,
};
use jiji_activities::flow::{Output, Progress, Step};
use jiji_activities::ipc::{Activity, IpcError, Request, Response, Window, Workspace};
use jiji_activities::list::{
    ActivityKind,
    ActivityRow,
    Field,
    JsonEnvelope,
    ListOpts,
    ListView,
    WorkspaceRow,
    classify_write_err,
    join,
    parse_format_spec,
    pluralise,
    render_format,
    render_json,
    render_plain,
};
use jiji_activities::resume::{resume_print, resume_reply};
use std::collections::VecDeque;

/// A compositor that expects given requests, in order, and gives fixed replies.
struct MockClient {
    queue: VecDeque<(Request, Result<Response, String>)>,
}

impl MockClient {
    fn new() -> Self {
        MockClient { queue: VecDeque::new() }
    }

    fn expect(&mut self, request: Request, reply: Result<Response, String>) {
        self.queue.push_back((request, reply));
    }

    fn send(&mut self, request: Request) -> Result<Response, IpcError> {
        let (expected, reply) = self
            .queue
            .pop_front()
            .unwrap_or_else(|| panic!("unexpected request: {request:?}"));
        assert_eq!(request, expected, "another request was expected");
        reply.map_err(IpcError::Server)
    }

    fn assert_consumed_in_order(&self) {
        assert!(self.queue.is_empty(), "requests not sent: {:?}", self.queue);
    }

    fn remaining_count(&self) -> usize {
        self.queue.len()
    }
}

/// Carries out the steps of a subcommand until it is over.
fn drive(
    progress: Progress,
    client: &mut MockClient,
    out: &mut Vec<u8>,
) -> Result<(), Failure> {
    let mut progress = progress;
    loop {
        let Progress { scope, step, .. } = progress;
        progress = match step {
            Step::Send { request, then } => {
                let reply = client.send(request);
                let shown = match &reply {
                    Ok(response) => format!("{response:?}"),
                    Err(_) => String::new(),
                };
                resume_reply(scope, then, reply, &shown)
            }
            Step::Print { output, then } => {
                out.extend_from_slice(encoded(output).as_bytes());
                resume_print(scope, then, Ok(()))
            }
            Step::Finish { outcome } => return outcome,
            other => panic!("unexpected step: {other:?}"),
        };
    }
}

/// What goes to stdout.
fn encoded(output: Output) -> String {
    match output {
        Output::Text(text) => text,
        Output::Json(envelope) => {
            let mut text = serde_json::to_string_pretty(&document(envelope)).expect("encodes");
            text.push('\n');
            text
        }
        other => panic!("unexpected output: {other:?}"),
    }
}

fn object(fields: Vec<(&str, serde_json::Value)>) -> serde_json::Value {
    let mut map = serde_json::Map::new();
    for (name, value) in fields {
        map.insert(name.to_owned(), value);
    }
    serde_json::Value::Object(map)
}

fn document(envelope: JsonEnvelope) -> serde_json::Value {
    let mut activities = Vec::new();
    for a in envelope.activities {
        let mut workspaces = Vec::new();
        for w in a.workspaces {
            workspaces.push(object(vec![
                ("id", w.id.into()),
                ("name", w.name.into()),
                ("sticky", w.sticky.into()),
            ]));
        }
        activities.push(object(vec![
            ("name", a.name.into()),
            ("kind", a.kind.into()),
            ("focused", a.focused.into()),
            ("workspaces", workspaces.into()),
            ("window_count", a.window_count.into()),
        ]));
    }
    object(vec![
        ("schema_version", envelope.schema_version.into()),
        ("activities", activities.into()),
    ])
}

fn run(client: &mut MockClient, opts: ListOpts, out: &mut Vec<u8>) -> Result<(), Failure> {
    drive(list::run(opts), client, out)
}

fn act(id: u64, name: &str, is_active: bool, is_config: bool) -> Activity {
    Activity {
        id,
        name: name.into(),
        is_config_declared: is_config,
        is_active,
        ..Default::default()
    }
}

fn ws(id: u64, name: Option<&str>, activities: Vec<u64>, sticky: bool) -> Workspace {
    Workspace {
        id,
        name: name.map(String::from),
        activities,
        is_sticky: sticky,
        ..Default::default()
    }
}

fn win(id: u64, ws_id: Option<u64>) -> Window {
    Window {
        id,
        workspace_id: ws_id,
    }
}

#[test]
fn parse_format_spec_recognizes_all_fields() {
    let parsed = parse_format_spec("name,kind,focused,workspace_count,window_count")
        .expect("all known fields parse");
    assert_eq!(
        parsed,
        vec![
            Field::Name,
            Field::Kind,
            Field::Focused,
            Field::WorkspaceCount,
            Field::WindowCount,
        ]
    );
}

#[test]
fn parse_format_spec_unknown_field_is_usage() {
    let err = parse_format_spec("name,bogus,kind").expect_err("unknown field rejected");
    assert_eq!(err.exit_code(), 64);
    let msg = err.describe();
    assert!(
        msg.contains("unknown field: bogus"),
        "Display must name the offending field: {err:?}",
    );
    assert!(
        msg.contains("name|kind|focused"),
        "Display must hint the valid field set: {err:?}",
    );
}

#[test]
fn parse_format_spec_empty_is_usage() {
    let err = parse_format_spec("").expect_err("empty spec rejected");
    assert_eq!(err.exit_code(), 64);
    assert!(
        err.describe().contains("name|kind|focused"),
        "empty-spec error must hint the valid field set: {err:?}",
    );
}

#[test]
fn parse_format_spec_whitespace_treated_as_unknown_field() {
    let err = parse_format_spec("name, kind").expect_err("space-padded field is rejected");
    assert_eq!(err.exit_code(), 64);
    let msg = err.describe();
    assert!(
        msg.contains("unknown field"),
        "space-padded token must be unknown, not duplicate: {err:?}",
    );
}

#[test]
fn parse_format_spec_rejects_duplicate_field() {
    let err =
        parse_format_spec("name,name,kind").expect_err("duplicate field must be rejected");
    assert_eq!(err.exit_code(), 64);
    assert!(
        err.describe().contains("duplicate field: name"),
        "Display must name the duplicated field: {err:?}",
    );
}

#[test]
fn render_plain_zero_activities_writes_nothing() {
    let view = ListView { activities: vec![] };
    let out = render_plain(&view);
    assert_eq!(
        out, "",
        "zero activities: empty stdout, no trailing newline"
    );
}

#[test]
fn render_plain_focused_is_starred() {
    let view = ListView {
        activities: vec![
            ActivityRow {
                name: "Work".into(),
                kind: ActivityKind::Config,
                focused: false,
                workspaces: vec![WorkspaceRow {
                    id: 1,
                    name: None,
                    sticky: false,
                }],
                window_count: 3,
            },
            ActivityRow {
                name: "Personal".into(),
                kind: ActivityKind::Config,
                focused: true,
                workspaces: vec![
                    WorkspaceRow {
                        id: 2,
                        name: None,
                        sticky: false,
                    },
                    WorkspaceRow {
                        id: 3,
                        name: None,
                        sticky: false,
                    },
                ],
                window_count: 5,
            },
            ActivityRow {
                name: "Gaming".into(),
                kind: ActivityKind::Runtime,
                focused: false,
                workspaces: vec![],
                window_count: 0,
            },
        ],
    };
    let out = render_plain(&view);
    let expected = "\
        \u{20} Work      (config)   [1 workspace, 3 windows]\n\
        * Personal  (config)   [2 workspaces, 5 windows]\n\
        \u{20} Gaming    (runtime)  [0 workspaces, 0 windows]\n";
    assert_eq!(out, expected, "plain output mismatch\nactual:\n{out}");
}

#[test]
fn render_plain_pluralisation_singular_and_plural() {
    let cases = [
        (0usize, 0usize, "[0 workspaces, 0 windows]"),
        (1, 1, "[1 workspace, 1 window]"),
        (2, 12, "[2 workspaces, 12 windows]"),
    ];
    for (ws_n, win_n, tail) in cases {
        let view = ListView {
            activities: vec![ActivityRow {
                name: "X".into(),
                kind: ActivityKind::Config,
                focused: false,
                workspaces: (0..ws_n)
                    .map(|i| WorkspaceRow {
                        id: i as u64,
                        name: None,
                        sticky: false,
                    })
                    .collect(),
                window_count: win_n,
            }],
        };
        let out = render_plain(&view);
        assert!(
            out.contains(tail),
            "n=({ws_n},{win_n}): expected suffix `{tail}`, got `{out}`",
        );
    }
}

#[test]
fn render_plain_column_widths_handle_long_names() {
    let view = ListView {
        activities: vec![
            ActivityRow {
                name: "A".into(),
                kind: ActivityKind::Config,
                focused: false,
                workspaces: vec![],
                window_count: 0,
            },
            ActivityRow {
                name: "VeryLongActivityName".into(),
                kind: ActivityKind::Runtime,
                focused: false,
                workspaces: vec![],
                window_count: 0,
            },
        ],
    };
    let out = render_plain(&view);
    let lines: Vec<&str> = out.lines().collect();
    let offset_a = lines[0].find("(config)").expect("col 2 in line 0");
    let offset_b = lines[1].find("(runtime)").expect("col 2 in line 1");
    assert_eq!(
        offset_a, offset_b,
        "kind column must align across rows; got offsets {offset_a} vs {offset_b}",
    );
    assert!(
        lines[1].contains("VeryLongActivityName"),
        "long name must be preserved verbatim: {}",
        lines[1],
    );
}

#[test]
fn render_json_zero_activities_emits_envelope() {
    let view = ListView { activities: vec![] };
    let out = encoded(Output::Json(render_json(&view)));
    let parsed: serde_json::Value =
        serde_json::from_str(&out).expect("output must be valid JSON");
    assert_eq!(parsed["schema_version"], 1);
    assert!(parsed["activities"].is_array());
    assert_eq!(parsed["activities"].as_array().unwrap().len(), 0);
}

#[test]
fn render_json_full_shape_round_trips_named_workspace() {
    let view = ListView {
        activities: vec![ActivityRow {
            name: "Work".into(),
            kind: ActivityKind::Config,
            focused: true,
            workspaces: vec![WorkspaceRow {
                id: 1,
                name: Some("main".into()),
                sticky: false,
            }],
            window_count: 12,
        }],
    };
    let out = encoded(Output::Json(render_json(&view)));
    let parsed: serde_json::Value =
        serde_json::from_str(&out).expect("output must be valid JSON");
    assert_eq!(parsed["schema_version"], 1);
    let act0 = &parsed["activities"][0];
    assert_eq!(act0["name"], "Work");
    assert_eq!(act0["kind"], "config");
    assert_eq!(act0["focused"], true);
    assert_eq!(act0["window_count"], 12);
    assert_eq!(act0["workspaces"][0]["id"], 1);
    assert_eq!(act0["workspaces"][0]["name"], "main");
    assert_eq!(act0["workspaces"][0]["sticky"], false);
}

#[test]
fn render_json_unnamed_workspace_emits_null() {
    let view = ListView {
        activities: vec![ActivityRow {
            name: "X".into(),
            kind: ActivityKind::Runtime,
            focused: false,
            workspaces: vec![WorkspaceRow {
                id: 7,
                name: None,
                sticky: false,
            }],
            window_count: 0,
        }],
    };
    let out = encoded(Output::Json(render_json(&view)));
    let parsed: serde_json::Value =
        serde_json::from_str(&out).expect("output must be valid JSON");
    assert!(
        parsed["activities"][0]["workspaces"][0]["name"].is_null(),
        "unnamed workspace should serialise as null: {parsed}",
    );
}

#[test]
fn render_format_name_kind_focused() {
    let view = ListView {
        activities: vec![
            ActivityRow {
                name: "Work".into(),
                kind: ActivityKind::Config,
                focused: false,
                workspaces: vec![],
                window_count: 0,
            },
            ActivityRow {
                name: "Personal".into(),
                kind: ActivityKind::Config,
                focused: true,
                workspaces: vec![],
                window_count: 0,
            },
            ActivityRow {
                name: "Gaming".into(),
                kind: ActivityKind::Runtime,
                focused: false,
                workspaces: vec![],
                window_count: 0,
            },
        ],
    };
    let fields = vec![Field::Name, Field::Kind, Field::Focused];
    let out = render_format(&view, &fields);
    assert_eq!(
        out,
        "Work,config,false\nPersonal,config,true\nGaming,runtime,false\n",
    );
}

#[test]
fn render_format_workspace_count_and_window_count() {
    let view = ListView {
        activities: vec![ActivityRow {
            name: "Work".into(),
            kind: ActivityKind::Config,
            focused: false,
            workspaces: vec![
                WorkspaceRow {
                    id: 1,
                    name: None,
                    sticky: false,
                },
                WorkspaceRow {
                    id: 2,
                    name: None,
                    sticky: false,
                },
            ],
            window_count: 5,
        }],
    };
    let fields = vec![Field::WorkspaceCount, Field::WindowCount];
    let out = render_format(&view, &fields);
    assert_eq!(out, "2,5\n");
}

#[test]
fn render_format_zero_activities_writes_nothing() {
    let view = ListView { activities: vec![] };
    let fields = vec![Field::Name, Field::Kind];
    let out = render_format(&view, &fields);
    assert_eq!(
        out, "",
        "zero activities: empty stdout, no trailing newline"
    );
}

#[test]
fn join_partitions_workspaces_and_windows_correctly() {
    let activities = vec![
        act(10, "Work", true, true),
        act(20, "Personal", false, false),
    ];
    let workspaces = vec![
        ws(1, Some("a"), vec![10, 20], true),
        ws(2, Some("b"), vec![20], false),
        ws(3, None, vec![], false),
    ];
    let windows = vec![
        win(100, Some(1)),
        win(101, Some(2)),
        win(102, Some(2)),
        win(103, None),
    ];
    let view = join(activities, workspaces, windows);
    assert_eq!(view.activities.len(), 2);

    let work = &view.activities[0];
    assert_eq!(work.name, "Work");
    assert!(work.focused);
    assert!(matches!(work.kind, ActivityKind::Config));
    assert_eq!(work.workspaces.len(), 1, "sticky ws shared with Personal");
    assert_eq!(work.workspaces[0].id, 1);
    assert!(work.workspaces[0].sticky);
    assert_eq!(work.window_count, 1, "only window 100 lives on ws 1");

    let personal = &view.activities[1];
    assert_eq!(personal.name, "Personal");
    assert!(!personal.focused);
    assert!(matches!(personal.kind, ActivityKind::Runtime));
    assert_eq!(personal.workspaces.len(), 2, "sticky + own ws");
    assert_eq!(personal.window_count, 3, "window 100 + 101 + 102");
}

#[test]
fn run_returns_wrong_variant_on_shape_mismatch() {
    let mut client = MockClient::new();
    client.expect(
        Request::Activities,
        Ok(Response::Version("bogus".into())),
    );
    let mut buf = Vec::new();
    let err = run(
        &mut client,
        ListOpts {
            json: false,
            format: None,
            activity: None,
            order: Order::Static,
        },
        &mut buf,
    )
    .expect_err("must fail with WrongVariant");
    let cli_err = err.typed_cause()
        .expect("CliError must remain downcastable through .context wrap");
    match cli_err {
        CliError::MalformedResponse(MalformedResponseSource::WrongVariant {
            expected,
            got,
        }) => {
            assert_eq!(*expected, "Response::Activities");
            assert_eq!(got, "Response::Version");
        }
        other => panic!("expected WrongVariant, got {other:?}"),
    }
    assert!(
        err.describe().contains("requesting activities"),
        "context string missing from chain: {err:?}",
    );
    assert_eq!(
        client.remaining_count(),
        0,
        "no IPC calls should follow a WrongVariant error",
    );
}

#[test]
fn run_returns_wrong_variant_on_workspaces_shape_mismatch() {
    let mut client = MockClient::new();
    client.expect(Request::Activities, Ok(Response::Activities(vec![])));
    client.expect(
        Request::Workspaces,
        Ok(Response::Version("bogus".into())),
    );
    let mut buf = Vec::new();
    let err = run(
        &mut client,
        ListOpts {
            json: false,
            format: None,
            activity: None,
            order: Order::Static,
        },
        &mut buf,
    )
    .expect_err("must fail with WrongVariant on Workspaces");
    let cli_err = err.typed_cause()
        .expect("CliError must be in chain");
    match cli_err {
        CliError::MalformedResponse(MalformedResponseSource::WrongVariant {
            expected,
            got,
        }) => {
            assert_eq!(*expected, "Response::Workspaces");
            assert_eq!(got, "Response::Version");
        }
        other => panic!("expected WrongVariant(Response::Workspaces), got {other:?}"),
    }
    assert!(
        err.describe().contains("requesting workspaces"),
        "context string missing from chain: {err:?}",
    );
    assert_eq!(
        client.remaining_count(),
        0,
        "Windows call must not be attempted after Workspaces mismatch",
    );
}

#[test]
fn run_returns_wrong_variant_on_windows_shape_mismatch() {
    let mut client = MockClient::new();
    client.expect(Request::Activities, Ok(Response::Activities(vec![])));
    client.expect(Request::Workspaces, Ok(Response::Workspaces(vec![])));
    client.expect(
        Request::Windows,
        Ok(Response::Version("bogus".into())),
    );
    let mut buf = Vec::new();
    let err = run(
        &mut client,
        ListOpts {
            json: false,
            format: None,
            activity: None,
            order: Order::Static,
        },
        &mut buf,
    )
    .expect_err("must fail with WrongVariant on Windows");
    let cli_err = err.typed_cause()
        .expect("CliError must be in chain");
    match cli_err {
        CliError::MalformedResponse(MalformedResponseSource::WrongVariant {
            expected,
            got,
        }) => {
            assert_eq!(*expected, "Response::Windows");
            assert_eq!(got, "Response::Version");
        }
        other => panic!("expected WrongVariant(Response::Windows), got {other:?}"),
    }
    assert!(
        err.describe().contains("requesting windows"),
        "context string missing from chain: {err:?}",
    );
    assert_eq!(client.remaining_count(), 0);
}

#[test]
fn run_happy_path_plain_consumes_all_three_calls() {
    let mut client = MockClient::new();
    client.expect(
        Request::Activities,
        Ok(Response::Activities(vec![act(1, "Work", true, true)])),
    );
    client.expect(
        Request::Workspaces,
        Ok(Response::Workspaces(vec![ws(10, None, vec![1], false)])),
    );
    client.expect(
        Request::Windows,
        Ok(Response::Windows(vec![win(100, Some(10))])),
    );
    let mut buf = Vec::new();
    run(
        &mut client,
        ListOpts {
            json: false,
            format: None,
            activity: None,
            order: Order::Static,
        },
        &mut buf,
    )
    .expect("run must succeed");
    client.assert_consumed_in_order();
    let out = String::from_utf8(buf).expect("utf-8 stdout");
    assert!(out.starts_with("* Work"), "output: {out}");
    assert!(out.contains("[1 workspace, 1 window]"), "output: {out}");
}

fn queue_three_happy_replies(client: &mut MockClient) {
    client.expect(
        Request::Activities,
        Ok(Response::Activities(vec![act(1, "Work", true, true)])),
    );
    client.expect(
        Request::Workspaces,
        Ok(Response::Workspaces(vec![ws(
            10,
            Some("main"),
            vec![1],
            false,
        )])),
    );
    client.expect(
        Request::Windows,
        Ok(Response::Windows(vec![win(100, Some(10))])),
    );
}

#[test]
fn run_happy_path_json_routes_through_render_json() {
    let mut client = MockClient::new();
    queue_three_happy_replies(&mut client);
    let mut buf = Vec::new();
    run(
        &mut client,
        ListOpts {
            json: true,
            format: None,
            activity: None,
            order: Order::Static,
        },
        &mut buf,
    )
    .expect("run --json must succeed");
    client.assert_consumed_in_order();
    let out = String::from_utf8(buf).expect("utf-8 stdout");
    assert!(
        out.trim_start().starts_with('{'),
        "--json output must be JSON-shaped; got: {out}",
    );
    assert!(
        out.contains("schema_version"),
        "--json output must contain schema_version; got: {out}",
    );
}

#[test]
fn run_happy_path_format_routes_through_render_format() {
    let mut client = MockClient::new();
    queue_three_happy_replies(&mut client);
    let mut buf = Vec::new();
    run(
        &mut client,
        ListOpts {
            json: false,
            format: Some("name".to_owned()),
            activity: None,
            order: Order::Static,
        },
        &mut buf,
    )
    .expect("run --format=name must succeed");
    client.assert_consumed_in_order();
    let out = String::from_utf8(buf).expect("utf-8 stdout");
    assert!(
        !out.trim_start().starts_with('{'),
        "--format output must not be JSON-shaped; got: {out}",
    );
    assert!(
        out.contains("Work"),
        "--format=name output must contain activity name; got: {out}",
    );
}

fn queue_two_activity_replies(client: &mut MockClient) {
    client.expect(
        Request::Activities,
        Ok(Response::Activities(vec![
            act(1, "Work", true, true),
            act(2, "Personal", false, true),
        ])),
    );
    client.expect(
        Request::Workspaces,
        Ok(Response::Workspaces(vec![
            ws(10, None, vec![1], false),
            ws(20, None, vec![2], false),
        ])),
    );
    client.expect(
        Request::Windows,
        Ok(Response::Windows(vec![
            win(100, Some(10)),
            win(200, Some(20)),
        ])),
    );
}

#[test]
fn run_activity_filter_narrows_plain() {
    let mut client = MockClient::new();
    queue_two_activity_replies(&mut client);
    let mut buf = Vec::new();
    run(
        &mut client,
        ListOpts {
            json: false,
            format: None,
            activity: Some("Work".to_owned()),
            order: Order::Static,
        },
        &mut buf,
    )
    .expect("run --activity Work must succeed");
    client.assert_consumed_in_order();
    let out = String::from_utf8(buf).expect("utf-8 stdout");
    assert!(out.contains("Work"), "Work must appear in output: {out}");
    assert!(
        !out.contains("Personal"),
        "Personal must not appear in filtered output: {out}",
    );
}

#[test]
fn run_activity_filter_narrows_json() {
    let mut client = MockClient::new();
    queue_two_activity_replies(&mut client);
    let mut buf = Vec::new();
    run(
        &mut client,
        ListOpts {
            json: true,
            format: None,
            activity: Some("Work".to_owned()),
            order: Order::Static,
        },
        &mut buf,
    )
    .expect("run --activity Work --json must succeed");
    client.assert_consumed_in_order();
    let out = String::from_utf8(buf).expect("utf-8 stdout");
    let parsed: serde_json::Value = serde_json::from_str(&out).expect("output must be JSON");
    let acts = parsed["activities"]
        .as_array()
        .expect("activities must be array");
    assert_eq!(acts.len(), 1, "exactly one activity after filter: {out}");
    assert_eq!(
        acts[0]["name"], "Work",
        "filtered activity must be Work: {out}"
    );
}

#[test]
fn run_activity_filter_narrows_format() {
    let mut client = MockClient::new();
    queue_two_activity_replies(&mut client);
    let mut buf = Vec::new();
    run(
        &mut client,
        ListOpts {
            json: false,
            format: Some("name".to_owned()),
            activity: Some("Work".to_owned()),
            order: Order::Static,
        },
        &mut buf,
    )
    .expect("run --activity Work --format=name must succeed");
    client.assert_consumed_in_order();
    let out = String::from_utf8(buf).expect("utf-8 stdout");
    assert_eq!(out, "Work\n", "filtered --format=name output: {out}");
}

#[test]
fn run_activity_unknown_returns_not_found() {
    let mut client = MockClient::new();
    client.expect(
        Request::Activities,
        Ok(Response::Activities(vec![act(1, "Work", true, true)])),
    );
    let mut buf = Vec::new();
    let err = run(
        &mut client,
        ListOpts {
            json: false,
            format: None,
            activity: Some("Bogus".to_owned()),
            order: Order::Static,
        },
        &mut buf,
    )
    .expect_err("unknown activity must be an error");
    let cli_err = err.typed_cause()
        .expect("CliError must be in chain");
    match cli_err {
        CliError::ActivityNotFound(name) => {
            assert_eq!(name, "Bogus", "error must name the unknown activity");
        }
        other => panic!("expected ActivityNotFound, got {other:?}"),
    }
    assert_eq!(
        err.typed_cause()
            .map(|e| e.exit_code()),
        Some(66),
        "ActivityNotFound must produce exit code 66",
    );
    assert_eq!(
        client.remaining_count(),
        0,
        "no Workspaces/Windows call should be issued for an unknown activity",
    );
}

fn act_seq(id: u64, name: &str, is_active: bool, seq: u64) -> Activity {
    Activity {
        id,
        name: name.into(),
        is_config_declared: true,
        is_active,
        last_active_seq: seq,
        ..Default::default()
    }
}

#[test]
fn list_mru_orders_by_recency() {
    let mut client = MockClient::new();
    client.expect(
        Request::Activities,
        Ok(Response::Activities(vec![
            act_seq(1, "Work", false, 0),
            act_seq(2, "Personal", true, 1),
            act_seq(3, "Gaming", false, 3),
        ])),
    );
    client.expect(Request::Workspaces, Ok(Response::Workspaces(vec![])));
    client.expect(Request::Windows, Ok(Response::Windows(vec![])));
    let mut buf = Vec::new();
    run(
        &mut client,
        ListOpts {
            json: false,
            format: Some("name".to_owned()),
            activity: None,
            order: Order::Mru,
        },
        &mut buf,
    )
    .expect("list --order=mru must succeed");
    client.assert_consumed_in_order();
    let out = String::from_utf8(buf).expect("utf-8 stdout");
    let names: Vec<&str> = out.lines().collect();
    assert_eq!(
        names,
        vec!["Gaming", "Personal", "Work"],
        "MRU order must be Gaming (seq=3), Personal (seq=1), Work (seq=0); got: {names:?}",
    );
}

#[test]
fn list_static_is_declaration_order() {
    let mut client = MockClient::new();
    client.expect(
        Request::Activities,
        Ok(Response::Activities(vec![
            act_seq(1, "Work", false, 0),
            act_seq(2, "Personal", true, 1),
            act_seq(3, "Gaming", false, 3),
        ])),
    );
    client.expect(Request::Workspaces, Ok(Response::Workspaces(vec![])));
    client.expect(Request::Windows, Ok(Response::Windows(vec![])));
    let mut buf = Vec::new();
    run(
        &mut client,
        ListOpts {
            json: false,
            format: Some("name".to_owned()),
            activity: None,
            order: Order::Static,
        },
        &mut buf,
    )
    .expect("list --order=static must succeed");
    client.assert_consumed_in_order();
    let out = String::from_utf8(buf).expect("utf-8 stdout");
    let names: Vec<&str> = out.lines().collect();
    assert_eq!(
        names,
        vec!["Work", "Personal", "Gaming"],
        "Static order must match declaration order; got: {names:?}",
    );
}

fn row(name: &str) -> ActivityRow {
    ActivityRow {
        name: name.into(),
        kind: ActivityKind::Config,
        focused: false,
        workspaces: vec![],
        window_count: 0,
    }
}

#[test]
fn a_bad_format_is_refused_before_anything_is_asked() {
    let mut client = MockClient::new();
    let mut out = Vec::new();
    let opts = ListOpts {
        json: false,
        format: Some("name,name".to_owned()),
        activity: None,
        order: Order::Static,
    };
    let err = run(&mut client, opts, &mut out).expect_err("a repeated column is refused");
    assert_eq!(map_exit(&err), 64);
    assert!(out.is_empty());
}

#[test]
fn a_reader_that_went_away_is_no_failure_to_report() {
    let gone = Failure {
        contexts: Vec::new(),
        cause: Cause::Io(IoFailure {
            kind: IoKind::BrokenPipe,
            message: "Broken pipe".to_owned(),
        }),
    };
    let classified = classify_write_err(gone);
    assert_eq!(map_exit(&classified), 0);
    assert!(is_stdout_pipe_closed(&classified));
    let full = Failure {
        contexts: Vec::new(),
        cause: Cause::Io(IoFailure { kind: IoKind::Other, message: "disk full".to_owned() }),
    };
    let classified = classify_write_err(full);
    assert_eq!(map_exit(&classified), 1);
    assert!(!is_stdout_pipe_closed(&classified));
}

#[test]
fn columns_come_in_the_order_asked_for() {
    let view = ListView { activities: vec![row("Work")] };
    let fields = parse_format_spec("window_count,name").expect("known columns");
    assert_eq!(render_format(&view, &fields), "0,Work\n");
}

#[test]
fn windows_without_a_workspace_are_not_counted() {
    let view = join(
        vec![act(1, "Work", true, true)],
        vec![ws(10, None, vec![1], false)],
        vec![win(100, None), win(101, Some(10)), win(102, Some(99))],
    );
    assert_eq!(view.activities[0].window_count, 1);
}

#[test]
fn counts_have_their_plural() {
    assert_eq!(pluralise(0, "window", "windows"), "windows");
    assert_eq!(pluralise(1, "window", "windows"), "window");
    assert_eq!(pluralise(2, "window", "windows"), "windows");
}

#[test]
fn list_asks_for_nothing_with_columns_that_there_are_not() {
    let opts = ListOpts {
        json: false,
        format: Some("name,colour".to_owned()),
        activity: None,
        order: Order::Static,
    };
    match list::run(opts).step {
        Step::Finish { outcome: Err(failure) } => assert_eq!(map_exit(&failure), 64),
        other => panic!("unexpected step: {other:?}"),
    }
}
