//! The `completions` subcommand: a completion script for a shell.
//!
//! The fish script goes further than those of the other shells: it also
//! completes the names of activities, for the subcommands that take one name,
//! and only as long as none was typed. `create` takes a name that must be new,
//! and `assign-workspace` takes none; neither is completed.

use crate::error::Failure;
use crate::flow::{AfterPrint, Output, OutputView, Progress, ProgressView, Shell, Step, StepView,
    done, failed, plain};
use vstd::prelude::*;
use vstd::string::*;

verus! {

/// The command that lists the names; without a compositor it lists nothing.
pub const FISH_NAMES_CMD: &'static str = "jiji-activities list --format=name 2>/dev/null";

/// A fish function that tells whether no name was typed yet.
pub const FISH_HELPER: &'static str =
    "function __jiji_activities_no_positional_yet\n    set -l tokens (commandline -opc)\n    set -e tokens[1]\n    set -l found_subcommand 0\n    set -l positional_count 0\n    for tok in $tokens\n        if string match -q -- '-*' $tok\n            continue\n        end\n        if test $found_subcommand -eq 0\n            set found_subcommand 1\n            continue\n        end\n        set positional_count (math $positional_count + 1)\n    end\n    test $positional_count -eq 0\nend\n";

/// The line that completes names behind a subcommand.
pub open spec fn verb_line(verb: Seq<char>) -> Seq<char> {
    "complete -c jiji-activities -n \"__fish_jiji_activities_using_subcommand "@ + verb
        + "; and __jiji_activities_no_positional_yet\" -f -a \"("@ + FISH_NAMES_CMD@ + ")\"\n"@
}

fn push_verb_line(out: &mut String, verb: &str)
    ensures
        final(out)@ == old(out)@ + verb_line(verb@),
{
    let ghost start = out@;
    let mut line =
        "complete -c jiji-activities -n \"__fish_jiji_activities_using_subcommand ".to_owned();
    line.append(verb);
    line.append("; and __jiji_activities_no_positional_yet\" -f -a \"(");
    line.append(FISH_NAMES_CMD);
    line.append(")\"\n");
    out.append(line.as_str());
}

/// What is added to the fish script.
pub open spec fn fish_dynamic() -> Seq<char> {
    "\n# Dynamic activity-name completion (position-aware).\n\n"@ + FISH_HELPER@ + "\n"@ + verb_line(
        "switch"@,
    ) + verb_line("move-window"@) + verb_line("move-workspace"@) + verb_line("remove"@)
        + verb_line("save"@)
}

/// A fish function that tells whether no name was typed yet.
pub fn emit_no_positional_yet_helper() -> (r: String)
    ensures
        r@ == FISH_HELPER@,
{
    FISH_HELPER.to_owned()
}

/// What is added to the fish script: the helper function, then a line for each
/// subcommand that takes the name of an activity.
pub fn emit_fish_dynamic() -> (r: String)
    ensures
        r@ == fish_dynamic(),
{
    let mut out = "\n# Dynamic activity-name completion (position-aware).\n\n".to_owned();
    out.append(emit_no_positional_yet_helper().as_str());
    out.append("\n");
    push_verb_line(&mut out, "switch");
    push_verb_line(&mut out, "move-window");
    push_verb_line(&mut out, "move-workspace");
    push_verb_line(&mut out, "remove");
    push_verb_line(&mut out, "save");
    out
}

/// Writing the script of a shell; only that of fish is added to.
pub open spec fn writing(shell: Shell) -> ProgressView {
    plain(
        StepView::Print {
            output: OutputView::Completions {
                shell,
                dynamic: if shell == Shell::Fish {
                    fish_dynamic()
                } else {
                    Seq::empty()
                },
            },
            then: AfterPrint::Completions,
        },
    )
}

/// Writes the script of a shell.
pub fn run(shell: Shell) -> (r: Progress)
    ensures
        r@ == writing(shell),
{
    let dynamic = match shell {
        Shell::Fish => emit_fish_dynamic(),
        _ => String::new(),
    };
    Progress::at(
        Step::Print {
            output: Output::Completions { shell, dynamic },
            then: AfterPrint::Completions,
        },
    )
}

/// The end.
pub open spec fn after_printing(written: Result<(), Failure>) -> ProgressView {
    match written {
        Ok(_) => done(),
        Err(f) => failed(f@),
    }
}

/// Ends; a failure stays what it is.
pub fn printed(written: Result<(), Failure>) -> (r: Progress)
    ensures
        r@ == after_printing(written),
{
    match written {
        Ok(_) => Progress::done(),
        Err(f) => Progress::at(Step::Finish { outcome: Err(f) }),
    }
}

/// Whether the fish script completes names behind a subcommand: it holds the line
/// for it.
pub open spec fn completes(verb: Seq<char>) -> bool {
    exists|i: int|
        0 <= i <= fish_dynamic().len() - verb_line(verb).len() && #[trigger] fish_dynamic().subrange(
            i,
            i + verb_line(verb).len(),
        ) == verb_line(verb)
}

/// The fish script completes names behind every subcommand that takes the name of an
/// existing activity first.
pub proof fn law_fish_completes_names()
    ensures
        completes("switch"@),
        completes("move-window"@),
        completes("move-workspace"@),
        completes("remove"@),
        completes("save"@),
        writing(Shell::Fish).step matches StepView::Print {
            output: OutputView::Completions { dynamic, .. },
            ..
        } && dynamic == fish_dynamic(),
{
    let t = fish_dynamic();
    let a = "\n# Dynamic activity-name completion (position-aware).\n\n"@ + FISH_HELPER@ + "\n"@;
    let b = a + verb_line("switch"@);
    let c = b + verb_line("move-window"@);
    let d = c + verb_line("move-workspace"@);
    let e = d + verb_line("remove"@);
    assert(t == e + verb_line("save"@));
    lemma_part(t, a, verb_line("switch"@));
    lemma_part(t, b, verb_line("move-window"@));
    lemma_part(t, c, verb_line("move-workspace"@));
    lemma_part(t, d, verb_line("remove"@));
    lemma_part(t, e, verb_line("save"@));
}

proof fn lemma_part(t: Seq<char>, front: Seq<char>, part: Seq<char>)
    requires
        t.len() >= front.len() + part.len(),
        forall|i: int| 0 <= i < front.len() + part.len() ==> t[i] == (front + part)[i],
    ensures
        t.subrange(front.len() as int, (front.len() + part.len()) as int) == part,
{
    assert(t.subrange(front.len() as int, (front.len() + part.len()) as int) =~= part);
}

} // verus!
