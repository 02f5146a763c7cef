//! The `save` subcommand.

use jiji_activities::save;
use jiji_activities::config_scan::can_be_parsed;
use jiji_activities::error::{
    CliError,
    Failure,
    IoFailure,
    IoKind,
    MalformedResponseSource,
    map_exit,
};
use jiji_activities::flow::{Progress, Step};
use jiji_activities::ipc::{Action, IpcError, Request, Response};
use jiji_activities::resume::{resume_config_read, resume_config_written, resume_reply};
use jiji_activities::save::{
    AppendOutcome,
    ConfigFile,
    RealConfigPaths,
    dispatch_reload,
    ensure_parent_dir,
    leftover_note,
    read_or_empty,
    tmp_path_for,
};
use kdl::{KdlDocument, KdlValue};
use std::collections::VecDeque;

/// A compositor that expects given requests, in order, and gives fixed replies.
struct MockClient {
    queue: VecDeque<(Request, Result<Response, String>)>,
}

impl MockClient {
    fn new() -> Self {
        MockClient { queue: VecDeque::new() }
    }

    fn expect(&mut self, request: Request, reply: Result<Response, String>) {
        self.queue.push_back((request, reply));
    }

    fn send(&mut self, request: Request) -> Result<Response, IpcError> {
        let (expected, reply) = self
            .queue
            .pop_front()
            .unwrap_or_else(|| panic!("unexpected request: {request:?}"));
        assert_eq!(request, expected, "another request was expected");
        reply.map_err(IpcError::Server)
    }

    fn assert_consumed_in_order(&self) {
        assert!(self.queue.is_empty(), "requests not sent: {:?}", self.queue);
    }

    fn remaining_count(&self) -> usize {
        self.queue.len()
    }
}

/// A config file in memory.
struct Config {
    text: Option<String>,
}

/// Carries out the steps of a subcommand until it is over, with the lines that it
/// shows.
fn drive(
    progress: Progress,
    client: &mut MockClient,
    config: &mut Config,
) -> (Result<(), Failure>, Vec<String>) {
    let mut progress = progress;
    let mut shown_lines = Vec::new();
    loop {
        let Progress { notes, scope, step } = progress;
        shown_lines.extend(notes);
        progress = match step {
            Step::Send { request, then } => {
                let reply = client.send(request);
                let shown = match &reply {
                    Ok(response) => format!("{response:?}"),
                    Err(_) => String::new(),
                };
                resume_reply(scope, then, reply, &shown)
            }
            Step::ReadConfig { then } => {
                let text = config.text.clone().ok_or(IoFailure {
                    kind: IoKind::NotFound,
                    message: "No such file or directory".to_owned(),
                });
                let file = ConfigFile { path: "/home/me/config.kdl".to_owned(), text };
                resume_config_read(scope, then, Ok(file))
            }
            Step::WriteConfig { content, then } => {
                config.text = Some(content);
                resume_config_written(scope, then, Ok(()))
            }
            Step::Finish { outcome } => return (outcome, shown_lines),
            other => panic!("unexpected step: {other:?}"),
        };
    }
}

fn append_activity_if_absent(existing: &str, name: &str) -> Result<AppendOutcome, CliError> {
    save::append_activity_if_absent(existing, name).outcome
}

fn load_config_req() -> Request {
    Request::Action(Action::LoadConfigFile { path: None })
}

fn run(
    client: &mut MockClient,
    name: &str,
    config: &mut Config,
) -> (Result<(), Failure>, Vec<String>) {
    drive(save::run(name.to_owned()), client, config)
}

#[test]
fn append_to_empty_document_adds_activity() {
    let outcome = append_activity_if_absent("", "Work").expect("parse + append succeeds");
    match outcome {
        AppendOutcome::Added(s) => {
            assert!(
                s.contains("activity") && s.contains("Work"),
                "appended content must contain the new node: {s:?}",
            );
            assert!(
                s.trim_end().ends_with("\"Work\"") || s.contains("activity \"Work\""),
                "new node must use string-literal name form: {s:?}",
            );
        }
        other => panic!("expected Added, got {other:?}"),
    }
}

#[test]
fn append_to_document_with_one_unrelated_node_keeps_it() {
    let existing = "input {\n    keyboard\n}\n";
    let outcome = append_activity_if_absent(existing, "Work").expect("append succeeds");
    match outcome {
        AppendOutcome::Added(s) => {
            assert!(s.contains("input"), "unrelated node must survive: {s:?}");
            assert!(
                s.contains("activity") && s.contains("\"Work\""),
                "new node must be present: {s:?}",
            );
        }
        other => panic!("expected Added, got {other:?}"),
    }
}

#[test]
fn append_preserves_comments() {
    let existing = "// Keep me.\ninput {\n    // and me\n}\n";
    let outcome = append_activity_if_absent(existing, "Work").expect("append succeeds");
    match outcome {
        AppendOutcome::Added(s) => {
            assert!(
                s.contains("// Keep me."),
                "leading comment must survive: {s:?}",
            );
            assert!(s.contains("// and me"), "inner comment must survive: {s:?}");
        }
        other => panic!("expected Added, got {other:?}"),
    }
}

#[test]
fn append_preserves_trailing_blank_line() {
    let existing = "input {\n}\n\n";
    let outcome = append_activity_if_absent(existing, "Work").expect("append succeeds");
    match outcome {
        AppendOutcome::Added(s) => {
            assert!(
                s.ends_with('\n'),
                "output must end with newline, got: {s:?}",
            );
        }
        other => panic!("expected Added, got {other:?}"),
    }
}

#[test]
fn existing_activity_exact_match_is_already_declared() {
    let existing = "activity \"Work\"\n";
    let outcome = append_activity_if_absent(existing, "Work").expect("parse succeeds");
    assert_eq!(outcome, AppendOutcome::AlreadyDeclared);
}

#[test]
fn existing_activity_case_insensitive_match_is_already_declared() {
    let existing = "activity \"WORK\"\n";
    let outcome = append_activity_if_absent(existing, "work").expect("parse succeeds");
    assert_eq!(outcome, AppendOutcome::AlreadyDeclared);
}

#[test]
fn existing_activity_substring_does_not_match() {
    let existing = "activity \"Workshop\"\n";
    let outcome = append_activity_if_absent(existing, "Work").expect("parse succeeds");
    match outcome {
        AppendOutcome::Added(s) => assert!(s.contains("\"Work\"") && s.contains("Workshop")),
        other => panic!("expected Added, got {other:?}"),
    }
}

#[test]
fn existing_activity_block_form_still_matches() {
    let existing = "activity \"Work\" {\n}\n";
    let outcome = append_activity_if_absent(existing, "Work").expect("parse succeeds");
    assert_eq!(outcome, AppendOutcome::AlreadyDeclared);
}

#[test]
fn parse_error_returns_config_edit() {
    let existing = "input {\n";
    let err = append_activity_if_absent(existing, "Work").expect_err("parse must fail");
    match err {
        CliError::ConfigEdit(io) => {
            assert_eq!(io.kind, IoKind::InvalidData);
        }
        other => panic!("expected ConfigEdit(InvalidData), got {other:?}"),
    }
}

#[test]
fn append_when_existing_has_no_trailing_newline() {
    let existing = "input {}"; // deliberately no trailing newline
    let outcome = append_activity_if_absent(existing, "Work").expect("append succeeds");
    match outcome {
        AppendOutcome::Added(s) => {
            assert!(
                s.contains("\nactivity"),
                "new node must start on a fresh line when existing has no trailing newline: {s:?}",
            );
            KdlDocument::parse_v1(&s).expect("output must be valid KDL v1");
        }
        other => panic!("expected Added, got {other:?}"),
    }
}

#[test]
fn append_after_multiple_activities_appends_when_no_match() {
    let existing = "activity \"Home\"\nactivity \"Office\"\n";
    let outcome = append_activity_if_absent(existing, "Work").expect("append succeeds");
    match outcome {
        AppendOutcome::Added(s) => {
            assert!(s.contains("\"Home\""), "Home must survive: {s:?}");
            assert!(s.contains("\"Office\""), "Office must survive: {s:?}");
            assert!(s.contains("\"Work\""), "Work must be appended: {s:?}");
        }
        other => panic!("expected Added, got {other:?}"),
    }
}

#[test]
fn non_string_first_entry_returns_invalid_data() {
    let existing = "activity 42\n";
    let err =
        append_activity_if_absent(existing, "Work").expect_err("must fail on non-String entry");
    match err {
        CliError::ConfigEdit(io) => {
            assert_eq!(io.kind, IoKind::InvalidData);
            assert!(
                io.message.contains("not a string"),
                "error message must describe non-String entry: {io:?}",
            );
        }
        other => panic!("expected ConfigEdit(InvalidData), got {other:?}"),
    }
}

#[test]
fn append_with_special_chars_in_name_quotes_correctly() {
    let outcome = append_activity_if_absent("", "Hello \"World\"").expect("append succeeds");
    match outcome {
        AppendOutcome::Added(s) => {
            let reparsed = KdlDocument::parse_v1(&s).expect("serialized output reparses");
            let last = reparsed
                .nodes()
                .last()
                .expect("at least one node after append");
            assert_eq!(last.name().value(), "activity");
            let entry = last.entries().first().expect("name entry present");
            match entry.value() {
                KdlValue::String(s) => assert_eq!(s, "Hello \"World\""),
                other => panic!("expected String entry, got {other:?}"),
            }
        }
        other => panic!("expected Added, got {other:?}"),
    }
}

#[test]
fn special_char_newline_in_name_round_trips() {
    let name = "Work\nHome";
    let outcome = append_activity_if_absent("", name).expect("append succeeds");
    match outcome {
        AppendOutcome::Added(s) => {
            let reparsed = KdlDocument::parse_v1(&s).expect("must reparse as KDL v1");
            let entry = reparsed
                .nodes()
                .last()
                .expect("node present")
                .entries()
                .first()
                .expect("entry present");
            match entry.value() {
                KdlValue::String(v) => assert_eq!(v, name),
                other => panic!("expected String, got {other:?}"),
            }
        }
        other => panic!("expected Added, got {other:?}"),
    }
}

#[test]
fn special_char_tab_in_name_round_trips() {
    let name = "Work\tHome";
    let outcome = append_activity_if_absent("", name).expect("append succeeds");
    match outcome {
        AppendOutcome::Added(s) => {
            let reparsed = KdlDocument::parse_v1(&s).expect("must reparse as KDL v1");
            let entry = reparsed
                .nodes()
                .last()
                .expect("node present")
                .entries()
                .first()
                .expect("entry present");
            match entry.value() {
                KdlValue::String(v) => assert_eq!(v, name),
                other => panic!("expected String, got {other:?}"),
            }
        }
        other => panic!("expected Added, got {other:?}"),
    }
}

#[test]
fn special_char_backslash_in_name_round_trips() {
    let name = "Work\\Home";
    let outcome = append_activity_if_absent("", name).expect("append succeeds");
    match outcome {
        AppendOutcome::Added(s) => {
            let reparsed = KdlDocument::parse_v1(&s).expect("must reparse as KDL v1");
            let entry = reparsed
                .nodes()
                .last()
                .expect("node present")
                .entries()
                .first()
                .expect("entry present");
            match entry.value() {
                KdlValue::String(v) => assert_eq!(v, name),
                other => panic!("expected String, got {other:?}"),
            }
        }
        other => panic!("expected Added, got {other:?}"),
    }
}

#[test]
fn special_char_carriage_return_in_name_round_trips() {
    let name = "Work\rHome";
    let outcome = append_activity_if_absent("", name).expect("append succeeds");
    match outcome {
        AppendOutcome::Added(s) => {
            let reparsed = KdlDocument::parse_v1(&s).expect("must reparse as KDL v1");
            let entry = reparsed
                .nodes()
                .last()
                .expect("node present")
                .entries()
                .first()
                .expect("entry present");
            match entry.value() {
                KdlValue::String(v) => assert_eq!(v, name),
                other => panic!("expected String, got {other:?}"),
            }
        }
        other => panic!("expected Added, got {other:?}"),
    }
}

#[test]
fn save_already_declared_short_circuits_no_ipc() {
    let mut client = MockClient::new();
    let mut config = Config { text: Some("activity \"Work\"\n".to_owned()) };
    let (outcome, lines) = run(&mut client, "Work", &mut config);
    outcome.expect("idempotent path returns Ok");
    assert_eq!(client.remaining_count(), 0);
    assert_eq!(config.text.as_deref(), Some("activity \"Work\"\n"));
    assert_eq!(
        lines,
        vec!["jiji-activities: activity \"Work\" is already declared in config; nothing to write"],
    );
}

#[test]
fn save_writes_file_then_dispatches_load_config_file() {
    let mut client = MockClient::new();
    client.expect(load_config_req(), Ok(Response::Handled));
    let mut config = Config { text: Some(String::new()) };
    let (outcome, lines) = run(&mut client, "Work", &mut config);
    outcome.expect("happy path succeeds");
    assert!(lines.is_empty());
    client.assert_consumed_in_order();
    let after = config.text.expect("written");
    assert_eq!(after, "activity \"Work\"\n");
    let reparsed = KdlDocument::parse_v1(&after).expect("written content must be valid KDL v1");
    let activity_node = reparsed
        .nodes()
        .iter()
        .find(|n| n.name().value() == "activity")
        .expect("parsed document must contain an `activity` node");
    let first_entry = activity_node
        .entries()
        .first()
        .expect("activity node must have a name entry");
    match first_entry.value() {
        KdlValue::String(s) => assert_eq!(s, "Work", "activity name must round-trip exactly"),
        other => panic!("expected String entry, got {other:?}"),
    }
}

#[test]
fn save_load_config_server_error_is_malformed() {
    let mut client = MockClient::new();
    client.expect(load_config_req(), Err("compositor reload failed: parse error".to_owned()));
    let mut config = Config { text: Some(String::new()) };
    let (outcome, lines) = run(&mut client, "Work", &mut config);
    let err = outcome.expect_err("server error must fail");
    let cli_err = err.typed_cause().expect("CliError must be in chain");
    match cli_err {
        CliError::MalformedResponse(MalformedResponseSource::Server(msg)) => {
            assert!(
                msg.contains("compositor reload failed"),
                "server message must be surfaced verbatim: {msg:?}",
            );
        }
        other => panic!("expected MalformedResponse(Server), got {other:?}"),
    }
    assert!(err.describe().starts_with("reloading niri config: "));
    assert_eq!(
        lines,
        vec![
            "jiji-activities: note: activity was written to /home/me/config.kdl; \
             run `niri msg action load-config-file` to reload manually",
        ],
    );
    assert_eq!(config.text.as_deref(), Some("activity \"Work\"\n"));
    client.assert_consumed_in_order();
}

#[test]
fn save_load_config_wrong_variant_is_malformed() {
    let mut client = MockClient::new();
    client.expect(load_config_req(), Ok(Response::Version("v".into())));
    let mut config = Config { text: Some(String::new()) };
    let (outcome, _) = run(&mut client, "Work", &mut config);
    let err = outcome.expect_err("wrong variant must fail");
    let cli_err = err.typed_cause().expect("CliError must be in chain");
    match cli_err {
        CliError::MalformedResponse(MalformedResponseSource::WrongVariant { expected, got }) => {
            assert_eq!(*expected, "Response::Handled");
            assert!(
                got.contains("Version"),
                "got must name the Response::Version variant: {got:?}",
            );
        }
        other => panic!("expected WrongVariant, got {other:?}"),
    }
    client.assert_consumed_in_order();
}

#[test]
fn save_empty_name_is_usage_64() {
    let mut client = MockClient::new();
    let mut config = Config { text: None };
    let (outcome, _) = run(&mut client, "   ", &mut config);
    let err = outcome.expect_err("empty-after-trim name must fail");
    let cli_err = err.typed_cause().expect("CliError must be in chain");
    match cli_err {
        CliError::Usage(msg) => {
            assert!(
                msg.contains("activity name must not be empty or whitespace-only"),
                "Usage message must describe the constraint: {msg:?}",
            );
            assert!(
                msg.contains("   "),
                "Usage message must echo what was typed: {msg:?}",
            );
        }
        other => panic!("expected Usage, got {other:?}"),
    }
    assert_eq!(cli_err.exit_code(), 64);
    assert_eq!(client.remaining_count(), 0);
    assert!(config.text.is_none());
}

#[test]
fn a_refused_name_is_shown_with_its_escapes() {
    let mut client = MockClient::new();
    let (outcome, _) = run(&mut client, "\t\n", &mut Config { text: None });
    assert_eq!(
        outcome.expect_err("refused").describe(),
        "usage: activity name must not be empty or whitespace-only (got \"\\t\\n\")",
    );
}

#[test]
fn saving_twice_is_saving_once() {
    let mut client = MockClient::new();
    client.expect(load_config_req(), Ok(Response::Handled));
    client.expect(load_config_req(), Ok(Response::Handled));
    let mut config = Config { text: None };
    run(&mut client, "Work", &mut config).0.expect("saved");
    run(&mut client, "Say \"hi\" \\ (true", &mut config).0.expect("saved");
    let text = "activity \"Work\"\nactivity \"Say \\\"hi\\\" \\\\ (true\"\n";
    assert_eq!(config.text.as_deref(), Some(text));
    let mut config = Config { text: Some("activity \"Work\"\nactivity \"Home\"\n".to_owned()) };
    run(&mut client, "hOME", &mut config).0.expect("declared already");
    assert_eq!(
        config.text.as_deref(),
        Some("activity \"Work\"\nactivity \"Home\"\n"),
    );
    client.assert_consumed_in_order();
}

#[test]
fn a_blank_file_is_replaced() {
    assert_eq!(
        append_activity_if_absent("  \t", "Work").expect("appended"),
        AppendOutcome::Added("\nactivity \"Work\"\n".to_owned()),
    );
    assert_eq!(
        append_activity_if_absent("\n\n", "Work").expect("appended"),
        AppendOutcome::Added("activity \"Work\"\n".to_owned()),
    );
}

#[test]
fn a_declaration_goes_before_what_ends_the_file() {
    let existing = "input {\n}\n\n// The end.\n";
    assert_eq!(
        append_activity_if_absent(existing, "Work").expect("appended"),
        AppendOutcome::Added("input {\n}\nactivity \"Work\"\n\n// The end.\n".to_owned()),
    );
}

#[test]
fn names_beyond_ascii_are_noted_for_each_declaration() {
    let existing = "activity \"\u{c9}tude\"\nactivity \"Work\"\nactivity \"\u{c9}t\u{e9}\"\n";
    let append = save::append_activity_if_absent(existing, "Home");
    assert_eq!(append.notes.len(), 2);
    assert!(append.notes[0].ends_with("collision detection is ASCII-only"));
    let append = save::append_activity_if_absent(existing, "work");
    assert_eq!(append.notes.len(), 1);
    assert_eq!(append.outcome.expect("read"), AppendOutcome::AlreadyDeclared);
}

#[test]
fn a_broken_file_is_not_touched() {
    let mut client = MockClient::new();
    let mut config = Config { text: Some("input {\n".to_owned()) };
    let (outcome, _) = run(&mut client, "Work", &mut config);
    let err = outcome.expect_err("refused");
    assert_eq!(map_exit(&err), 73);
    assert!(err.describe().starts_with("writing config file: "));
    assert!(err.describe().contains("niri config is not valid KDL: "));
    assert_eq!(config.text.as_deref(), Some("input {\n"));
}

#[test]
fn a_file_that_cannot_be_read_is_reported() {
    let denied = IoFailure { kind: IoKind::PermissionDenied, message: "denied".to_owned() };
    match read_or_empty(Err(denied)) {
        Err(CliError::ConfigEdit(io)) => assert_eq!(io.kind, IoKind::PermissionDenied),
        other => panic!("expected ConfigEdit, got {other:?}"),
    }
    let absent = IoFailure { kind: IoKind::NotFound, message: "absent".to_owned() };
    assert_eq!(read_or_empty(Err(absent)).expect("empty"), "");
    assert_eq!(read_or_empty(Ok("x".to_owned())).expect("text"), "x");
}

#[test]
fn texts_on_which_the_parser_panics_are_recognised() {
    assert!(can_be_parsed("(u8)node 1\n"));
    assert!(can_be_parsed("(true)node 1\n"));
    assert!(!can_be_parsed("(true)"));
    assert!(!can_be_parsed("node (null)\n"));
    assert!(!can_be_parsed("node (false)\u{e9}\u{e9}\u{e9}"));
    assert!(can_be_parsed("node (true)\u{e9}x\n"));
    assert!(!can_be_parsed("// one\n/* (true) */ node \"(true)\" r#\"(true)\"# (true)\n"));
}

#[test]
fn reserved_words_in_comments_and_strings_do_no_harm() {
    for existing in [
        "// (true)\n",
        "/* /* */ (null) */\n",
        "node \"a\\\"(true\"\n",
        "node r#\"\"(false)\"#\n",
        "node \"(null\"\n",
        "/-r\"\\\" // (true)\n",
        "(truest)node 1\n",
    ] {
        assert!(can_be_parsed(existing), "{existing}");
        match append_activity_if_absent(existing, "Work").expect(existing) {
            AppendOutcome::Added(text) => assert_eq!(
                append_activity_if_absent(&text, "work").expect("read again"),
                AppendOutcome::AlreadyDeclared,
            ),
            other => panic!("expected Added, got {other:?}"),
        }
    }
}

#[test]
fn an_annotation_on_which_the_parser_panics_is_refused() {
    for existing in ["(true)", "input {\n}\nnode (null)\n"] {
        match append_activity_if_absent(existing, "Work") {
            Err(CliError::ConfigEdit(io)) => {
                assert_eq!(io.kind, IoKind::InvalidData);
                assert_eq!(
                    io.message,
                    "niri config is not valid KDL: a reserved word stands as a type annotation",
                );
            }
            other => panic!("expected ConfigEdit, got {other:?}"),
        }
    }
    let mut client = MockClient::new();
    let mut config = Config { text: Some("(true)".to_owned()) };
    let (outcome, _) = run(&mut client, "Work", &mut config);
    assert_eq!(map_exit(&outcome.expect_err("refused")), 73);
    assert_eq!(config.text.as_deref(), Some("(true)"));
}

#[test]
fn a_name_like_an_annotation_is_saved_once() {
    match append_activity_if_absent("", "(null").expect("appended") {
        AppendOutcome::Added(text) => {
            assert_eq!(text, "activity \"(null\"\n");
            assert_eq!(
                append_activity_if_absent(&text, "(NULL").expect("read again"),
                AppendOutcome::AlreadyDeclared,
            );
        }
        other => panic!("expected Added, got {other:?}"),
    }
}

#[test]
fn a_tidy_file_keeps_its_layout() {
    let body = "// Input.\ninput {\n    keyboard {\n        xkb { layout \"us\"; }\n    }\n\n    // Off.\n    /-touchpad {\n        tap\n    }\n}\n\nlayout {\n    gaps 16\n    default-column-width { proportion 0.5; }\n}\nspawn-at-startup \"a\" \\\n    \"b\"\nbinds {\n    Mod+T repeat=false { spawn \"foot\"; }\n}\n";
    let tail = "\n// Activities.\n";
    let existing = format!("{body}{tail}");
    let expected = format!("{body}activity \"Work\"\n{tail}");
    match append_activity_if_absent(&existing, "Work").expect("appended") {
        AppendOutcome::Added(text) => {
            assert_eq!(text, expected);
            assert_eq!(
                append_activity_if_absent(&text, "WORK").expect("read again"),
                AppendOutcome::AlreadyDeclared,
            );
            assert_eq!(
                append_activity_if_absent(&text, "Home").expect("appended"),
                AppendOutcome::Added(format!(
                    "{body}activity \"Work\"\nactivity \"Home\"\n{tail}"
                )),
            );
        }
        other => panic!("expected Added, got {other:?}"),
    }
}

#[test]
fn comments_behind_nodes_stay_where_they_are() {
    for existing in [
        "a // c\n",
        "a // c\nb\n",
        "a /* c */\n",
        "a {\n    b 1 // c\n    d 2 /* e */\n    f\n}\n",
        "a {\n    b // c\n} // d\n",
        "a \nb\t\n",
        "a\r\nb\r\n",
        "a; // c\n",
        "a // c\n\n// The end.\n",
    ] {
        let expected = format!("{existing}activity \"Work\"\n");
        assert_eq!(
            append_activity_if_absent(existing, "Work").expect(existing),
            AppendOutcome::Added(expected.clone()),
        );
        let document = KdlDocument::parse_v1(&expected).expect("valid");
        let before = KdlDocument::parse_v1(existing).expect("valid");
        assert_eq!(document.nodes().len(), before.nodes().len() + 1);
        let last = document.nodes().last().expect("a node");
        assert_eq!(last.name().value(), "activity");
        assert_eq!(
            append_activity_if_absent(&expected, "WORK").expect("read again"),
            AppendOutcome::AlreadyDeclared,
        );
    }
}

#[test]
fn a_missing_line_feed_is_put_in_behind_a_comment() {
    assert_eq!(
        append_activity_if_absent("a // c", "Work").expect("appended"),
        AppendOutcome::Added("a // c\nactivity \"Work\"\n".to_owned()),
    );
}

#[test]
fn a_line_that_goes_on_is_ended_first() {
    for existing in ["a \\\n", "a \\\r", "a \\ // c\n"] {
        let expected = format!("{existing}\n\nactivity \"Work\"\n");
        assert_eq!(
            append_activity_if_absent(existing, "Work").expect(existing),
            AppendOutcome::Added(expected.clone()),
        );
        assert_eq!(
            append_activity_if_absent(&expected, "work").expect("read again"),
            AppendOutcome::AlreadyDeclared,
        );
    }
}

#[test]
fn a_missing_line_feed_is_put_in() {
    assert_eq!(
        append_activity_if_absent("layout {\n}", "Work").expect("appended"),
        AppendOutcome::Added("layout {\n}\n\nactivity \"Work\"\n".to_owned()),
    );
}

#[test]
fn real_config_paths_niri_config_set_returns_that_path() {
    let path = RealConfigPaths {}.resolve(Some(b"/tmp/my-custom.kdl".to_vec()), None);
    assert_eq!(path.expect("set"), b"/tmp/my-custom.kdl".to_vec());
}

#[test]
fn real_config_paths_niri_config_empty_falls_through_to_project_dirs() {
    let path = RealConfigPaths {}.resolve(Some(Vec::new()), Some(b"/home/me/.config/jiji".to_vec()));
    assert_eq!(path.expect("found"), b"/home/me/.config/jiji/config.kdl".to_vec());
}

#[test]
fn real_config_paths_niri_config_unset_uses_project_dirs() {
    let path = RealConfigPaths {}.resolve(None, Some(b"/home/me/.config/jiji/".to_vec()));
    assert_eq!(path.expect("found"), b"/home/me/.config/jiji/config.kdl".to_vec());
    match (RealConfigPaths {}).resolve(None, None) {
        Err(CliError::ConfigEdit(io)) => assert_eq!(io.kind, IoKind::NotFound),
        other => panic!("expected ConfigEdit, got {other:?}"),
    }
}

#[test]
fn the_file_is_first_written_beside_its_place() {
    let tmp = tmp_path_for(Some(b"config.kdl".to_vec()), Some(b"/etc/jiji".to_vec()), "");
    assert_eq!(tmp.expect("a path"), b"/etc/jiji/config.kdl.jiji-activities.tmp".to_vec());
    let tmp = tmp_path_for(Some(b"config.kdl".to_vec()), Some(Vec::new()), "");
    assert_eq!(tmp.expect("a path"), b"config.kdl.jiji-activities.tmp".to_vec());
    match tmp_path_for(None, Some(b"/".to_vec()), "/..") {
        Err(CliError::ConfigEdit(io)) => {
            assert_eq!(io.kind, IoKind::InvalidInput);
            assert_eq!(io.message, "config path has no filename component: /..");
        }
        other => panic!("expected ConfigEdit, got {other:?}"),
    }
}

#[test]
fn only_a_named_parent_is_created() {
    let named = ensure_parent_dir(Some(b"/etc".to_vec()), "/etc/config.kdl");
    assert_eq!(named.expect("a parent"), Some(b"/etc".to_vec()));
    let current = ensure_parent_dir(Some(Vec::new()), "config.kdl");
    assert_eq!(current.expect("a parent"), None);
    match ensure_parent_dir(None, "/") {
        Err(CliError::ConfigEdit(io)) => {
            assert_eq!(io.kind, IoKind::InvalidInput);
            assert_eq!(io.message, "config path has no parent directory: /");
        }
        other => panic!("expected ConfigEdit, got {other:?}"),
    }
}

#[test]
fn a_file_that_stays_behind_is_told() {
    let denied = IoFailure { kind: IoKind::PermissionDenied, message: "denied".to_owned() };
    assert_eq!(
        leftover_note("/etc/x.tmp", Err(denied)).as_deref(),
        Some("jiji-activities: warning: could not remove tmp file /etc/x.tmp: denied"),
    );
    let absent = IoFailure { kind: IoKind::NotFound, message: "absent".to_owned() };
    assert_eq!(leftover_note("/etc/x.tmp", Err(absent)), None);
    assert_eq!(leftover_note("/etc/x.tmp", Ok(())), None);
}

#[test]
fn a_file_that_cannot_be_written_is_not_reloaded() {
    let full = IoFailure { kind: IoKind::Other, message: "disk full".to_owned() };
    match dispatch_reload("/etc/config.kdl".to_owned(), Err(full)).step {
        Step::Finish { outcome: Err(failure) } => {
            assert_eq!(map_exit(&failure), 73);
            assert!(failure.describe().starts_with("writing config file: "));
        }
        other => panic!("unexpected step: {other:?}"),
    }
}
