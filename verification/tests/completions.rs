//! Completion scripts.

use jiji_activities::completions::{emit_fish_dynamic, run};
use jiji_activities::flow::{Output, Shell, Step};

/// The subcommands whose names are completed.
const FISH_SINGLE_ARG_VERBS: [&str; 5] =
    ["switch", "move-window", "move-workspace", "remove", "save"];

fn fish_dynamic_bytes() -> Vec<u8> {
    emit_fish_dynamic().into_bytes()
}

#[test]
fn fish_dynamic_guards_every_verb_with_no_positional_yet() {
    let out = String::from_utf8(fish_dynamic_bytes()).unwrap();
    for verb in FISH_SINGLE_ARG_VERBS {
        let needle = format!(
            "__fish_jiji_activities_using_subcommand {verb}; \
             and __jiji_activities_no_positional_yet"
        );
        assert!(
            out.contains(&needle),
            "verb `{verb}` missing combined position guard:\n{out}",
        );
    }
}

#[test]
fn fish_dynamic_does_not_emit_line_for_create() {
    let out = String::from_utf8(fish_dynamic_bytes()).unwrap();
    assert!(
        !out.contains("__fish_jiji_activities_using_subcommand create"),
        "fish dynamic output must not include `create`:\n{out}",
    );
}

#[test]
fn fish_dynamic_does_not_emit_line_for_assign_workspace() {
    let out = String::from_utf8(fish_dynamic_bytes()).unwrap();
    assert!(
        !out.contains("__fish_jiji_activities_using_subcommand assign-workspace"),
        "fish dynamic output must not include `assign-workspace` \
         (it is a unit variant, picker-only):\n{out}",
    );
}

#[test]
fn fish_dynamic_uses_list_format_name_for_candidates() {
    let out = String::from_utf8(fish_dynamic_bytes()).unwrap();
    assert!(
        out.contains("(jiji-activities list --format=name 2>/dev/null)"),
        "fish dynamic output must invoke `list --format=name`:\n{out}",
    );
}

#[test]
fn fish_dynamic_defines_no_positional_yet_helper() {
    let out = String::from_utf8(fish_dynamic_bytes()).unwrap();
    assert!(
        out.contains("function __jiji_activities_no_positional_yet"),
        "fish dynamic output must define the position-guard helper:\n{out}",
    );
    let helper_pos = out
        .find("function __jiji_activities_no_positional_yet")
        .unwrap();
    let first_use_pos = out.find("and __jiji_activities_no_positional_yet").unwrap();
    assert!(
        helper_pos < first_use_pos,
        "helper function must be defined before first use",
    );
}

#[test]
fn only_fish_gets_names_completed() {
    for shell in [Shell::Bash, Shell::Elvish, Shell::PowerShell, Shell::Zsh] {
        match run(shell).step {
            Step::Print { output: Output::Completions { shell: given, dynamic }, .. } => {
                assert_eq!(given, shell);
                assert_eq!(dynamic, "");
            }
            other => panic!("unexpected step: {other:?}"),
        }
    }
    match run(Shell::Fish).step {
        Step::Print { output: Output::Completions { dynamic, .. }, .. } => {
            assert_eq!(dynamic, emit_fish_dynamic());
        }
        other => panic!("unexpected step: {other:?}"),
    }
}

#[test]
fn the_line_of_a_subcommand_is_exact() {
    let out = emit_fish_dynamic();
    let line = "complete -c jiji-activities -n \"__fish_jiji_activities_using_subcommand remove; \
                and __jiji_activities_no_positional_yet\" -f -a \
                \"(jiji-activities list --format=name 2>/dev/null)\"";
    assert!(out.lines().any(|l| l == line), "{out}");
    assert!(out.starts_with("\n# Dynamic activity-name completion (position-aware).\n\nfunction "));
}
