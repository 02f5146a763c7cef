//! The subcommands and how each of them begins.
//!
//! What needs a menu program first makes sure that it is there, before anything
//! is asked of the compositor: a missing program is then reported as such.

use crate::assign_workspace;
use crate::completions;
use crate::create;
use crate::error::{CliError, typed_in};
use crate::flow::{AfterCreated, AfterProbe, AfterReply, Progress, ProgressView, Shell, Step,
    StepView, Tool, failed, plain, sending};
use crate::ipc::{ActivityReferenceArg, ActivityReferenceView, RequestView};
use crate::list;
use crate::list::ListOpts;
use crate::move_window;
use crate::move_workspace;
use crate::remove;
use crate::rename;
use crate::save;
use crate::switch;
use crate::switch_previous;
use vstd::prelude::*;
use vstd::string::*;

verus! {

/// In what order activities are listed.
#[derive(Debug, Clone, Copy, PartialEq, Eq, Structural)]
pub enum Order {
    /// As the compositor lists them, which is the order of declaration.
    Static,
    /// The most recently used first; those never used come last, in the order
    /// of declaration.
    Mru,
}

/// What happens after something was moved. Opening the overview without
/// following cannot be expressed.
#[derive(Debug, Clone, Copy, PartialEq, Eq, Structural)]
pub enum FollowMode {
    /// Nothing.
    Off,
    /// The user is asked whether to follow.
    Follow,
    /// The user is asked whether to follow, and then shown the overview.
    FollowAndOverview,
}

impl FollowMode {
    /// Whether to follow.
    pub open spec fn follows(self) -> bool {
        self != FollowMode::Off
    }

    /// Whether to open the overview.
    pub open spec fn opens_overview(self) -> bool {
        self == FollowMode::FollowAndOverview
    }

    /// Whether to follow.
    pub fn should_follow(self) -> (r: bool)
        ensures
            r == self.follows(),
    {
        match self {
            FollowMode::Off => false,
            FollowMode::Follow => true,
            FollowMode::FollowAndOverview => true,
        }
    }

    /// Whether to open the overview after following.
    pub fn with_overview(self) -> (r: bool)
        ensures
            r == self.opens_overview(),
    {
        match self {
            FollowMode::Off => false,
            FollowMode::Follow => false,
            FollowMode::FollowAndOverview => true,
        }
    }
}

/// What the flags `--follow` and `--overview` ask for together.
pub open spec fn follow_mode(follow: bool, overview: bool) -> FollowMode {
    if overview {
        FollowMode::FollowAndOverview
    } else if follow {
        FollowMode::Follow
    } else {
        FollowMode::Off
    }
}

/// Folds the flags `--follow` and `--overview` into one mode.
pub fn resolve_follow_overview(follow: bool, overview: bool) -> (r: FollowMode)
    ensures
        r == follow_mode(follow, overview),
        r.follows() == (follow || overview),
        r.opens_overview() == overview,
{
    if overview {
        FollowMode::FollowAndOverview
    } else if follow {
        FollowMode::Follow
    } else {
        FollowMode::Off
    }
}

/// Whoever opens the overview also follows: `--overview` implies `--follow`.
pub proof fn law_overview_implies_follow(mode: FollowMode)
    ensures
        mode.opens_overview() ==> mode.follows(),
        forall|follow: bool| follow_mode(follow, true) == FollowMode::FollowAndOverview,
{
}

// ---- Making sure that a menu program is there ------------------------------

/// The program that the menus after a probe need.
pub open spec fn tool_of(then: AfterProbe) -> Tool {
    match then {
        AfterProbe::AssignWorkspace { .. } => Tool::Rofi,
        _ => Tool::Fuzzel,
    }
}

/// The operation within which a probe fails.
pub open spec fn probe_context(then: AfterProbe) -> Seq<char> {
    match then {
        AfterProbe::Switch { .. } => "verifying switch picker availability"@,
        AfterProbe::MoveWindow { .. } => "verifying move-window follow picker availability"@,
        AfterProbe::MoveWindowPicker { .. } => "verifying move-window picker availability"@,
        AfterProbe::MoveWindowHere { .. } => "verifying move-window-here picker availability"@,
        AfterProbe::MoveWorkspace { .. } => "verifying move-workspace follow picker availability"@,
        AfterProbe::MoveWorkspacePicker { .. } => "verifying move-workspace picker availability"@,
        AfterProbe::AssignWorkspace { .. } => "verifying assign-workspace picker availability"@,
        AfterProbe::AssignWorkspaceFollow { .. } => {
            "verifying assign-workspace follow picker availability"@
        },
        AfterProbe::Rename { .. } => "verifying rename picker availability"@,
    }
}

/// Asking whether the program is there.
pub open spec fn probing(then: AfterProbe) -> ProgressView {
    plain(StepView::Probe { tool: tool_of(then), then })
}

fn probe(then: AfterProbe) -> (r: Progress)
    ensures
        r@ == probing(then),
{
    let tool = match &then {
        AfterProbe::AssignWorkspace { .. } => Tool::Rofi,
        _ => Tool::Fuzzel,
    };
    Progress::at(Step::Probe { tool, then })
}

fn context_of(then: &AfterProbe) -> (r: &'static str)
    ensures
        r@ == probe_context(*then),
{
    match then {
        AfterProbe::Switch { .. } => "verifying switch picker availability",
        AfterProbe::MoveWindow { .. } => "verifying move-window follow picker availability",
        AfterProbe::MoveWindowPicker { .. } => "verifying move-window picker availability",
        AfterProbe::MoveWindowHere { .. } => "verifying move-window-here picker availability",
        AfterProbe::MoveWorkspace { .. } => "verifying move-workspace follow picker availability",
        AfterProbe::MoveWorkspacePicker { .. } => "verifying move-workspace picker availability",
        AfterProbe::AssignWorkspace { .. } => "verifying assign-workspace picker availability",
        AfterProbe::AssignWorkspaceFollow { .. } => {
            "verifying assign-workspace follow picker availability"
        },
        AfterProbe::Rename { .. } => "verifying rename picker availability",
    }
}

/// How a workspace is assigned once all programs are there.
pub open spec fn assigning(follow: FollowMode, workspace: Option<u64>) -> ProgressView {
    sending(RequestView::Activities, AfterReply::AssignActivities { follow, workspace }).within(
        "running assign-workspace picker"@,
    )
}

/// What begins once the program is there.
pub open spec fn beginning(then: AfterProbe) -> ProgressView {
    match then {
        AfterProbe::Switch { order } => sending(
            RequestView::Activities,
            AfterReply::SwitchActivities { order },
        ).within("running switch picker"@),
        AfterProbe::MoveWindow { activity_name, follow, window } => sending(
            RequestView::Activities,
            AfterReply::MoveWindowActivities { activity_name, follow, window },
        ),
        AfterProbe::MoveWindowPicker { follow, window } => sending(
            RequestView::Activities,
            AfterReply::MoveWindowPickerActivities { follow, window },
        ).within("running move-window picker"@),
        AfterProbe::MoveWindowHere { follow, window } => sending(
            RequestView::Activities,
            AfterReply::MoveWindowHereActivities { follow, window },
        ).within("running move-window-here picker"@),
        AfterProbe::MoveWorkspace { activity_name, follow, workspace } => move_workspace::beginning(
            activity_name,
            follow,
            workspace,
        ),
        AfterProbe::MoveWorkspacePicker { follow, workspace } => sending(
            RequestView::Activities,
            AfterReply::MoveWorkspaceActivities { follow, workspace },
        ).within("running move-workspace picker"@),
        AfterProbe::AssignWorkspace { follow, workspace } => if follow.follows() {
            probing(AfterProbe::AssignWorkspaceFollow { follow, workspace })
        } else {
            assigning(follow, workspace)
        },
        AfterProbe::AssignWorkspaceFollow { follow, workspace } => assigning(follow, workspace),
        AfterProbe::Rename { new_name } => sending(
            RequestView::Activities,
            AfterReply::RenameActivities { new_name },
        ).within("running rename picker"@),
    }
}

/// What follows a probe: without the program, its absence is reported.
pub open spec fn after_probe(then: AfterProbe, found: Result<(), CliError>) -> ProgressView {
    match found {
        Err(e) => failed(typed_in(e@, probe_context(then))),
        Ok(_) => beginning(then),
    }
}

/// Goes on once it is known whether the program is there.
pub fn probed(then: AfterProbe, found: Result<(), CliError>) -> (r: Progress)
    ensures
        r@ == after_probe(then, found),
{
    if let Err(e) = found {
        return Progress::fail_in(e, context_of(&then));
    }
    match then {
        AfterProbe::Switch { order } => switch::run_picker(order).within("running switch picker"),
        AfterProbe::MoveWindow { activity_name, follow, window } => {
            move_window::run(activity_name, follow, window)
        },
        AfterProbe::MoveWindowPicker { follow, window } => {
            move_window::run_picker(follow, window).within("running move-window picker")
        },
        AfterProbe::MoveWindowHere { follow, window } => {
            move_window::run_here_picker(follow, window).within("running move-window-here picker")
        },
        AfterProbe::MoveWorkspace { activity_name, follow, workspace } => {
            move_workspace::run(activity_name, follow, workspace)
        },
        AfterProbe::MoveWorkspacePicker { follow, workspace } => {
            move_workspace::run_picker(follow, workspace).within("running move-workspace picker")
        },
        AfterProbe::AssignWorkspace { follow, workspace } => if follow.should_follow() {
            probe(AfterProbe::AssignWorkspaceFollow { follow, workspace })
        } else {
            assign_workspace::run(follow, workspace).within("running assign-workspace picker")
        },
        AfterProbe::AssignWorkspaceFollow { follow, workspace } => {
            assign_workspace::run(follow, workspace).within("running assign-workspace picker")
        },
        AfterProbe::Rename { new_name } => {
            rename::run_picker(new_name).within("running rename picker")
        },
    }
}

// ---- The subcommands -------------------------------------------------------

/// Switches to an activity: the named one, or one from a menu.
pub fn cmd_switch(name: Option<String>, order: Order) -> (r: Progress)
    ensures
        r@ == (match name {
            Some(n) => switch::switching(n),
            None => probing(AfterProbe::Switch { order }),
        }),
{
    match name {
        Some(n) => switch::run(n),
        None => probe(AfterProbe::Switch { order }),
    }
}

/// Switches to an earlier activity.
pub fn cmd_switch_previous(depth: u32) -> (r: Progress)
    ensures
        r@ == switch_previous::going_back(depth),
{
    switch_previous::run(depth)
}

/// Moves a window to an activity: the named one, or one from a menu. A name
/// alone needs no menu program.
pub fn cmd_move_window(
    name: Option<String>,
    follow_mode: FollowMode,
    window: Option<u64>,
) -> (r: Progress)
    ensures
        r@ == (match name {
            Some(activity_name) => if follow_mode.follows() {
                probing(AfterProbe::MoveWindow { activity_name, follow: follow_mode, window })
            } else {
                sending(
                    RequestView::Activities,
                    AfterReply::MoveWindowActivities { activity_name, follow: follow_mode, window },
                )
            },
            None => probing(AfterProbe::MoveWindowPicker { follow: follow_mode, window }),
        }),
{
    match name {
        Some(activity_name) => if follow_mode.should_follow() {
            probe(AfterProbe::MoveWindow { activity_name, follow: follow_mode, window })
        } else {
            move_window::run(activity_name, follow_mode, window)
        },
        None => probe(AfterProbe::MoveWindowPicker { follow: follow_mode, window }),
    }
}

/// Moves a window within the active activity.
pub fn cmd_move_window_here(follow_mode: FollowMode, window: Option<u64>) -> (r: Progress)
    ensures
        r@ == probing(AfterProbe::MoveWindowHere { follow: follow_mode, window }),
{
    probe(AfterProbe::MoveWindowHere { follow: follow_mode, window })
}

/// Moves a workspace to an activity: the named one, or one from a menu. A name
/// alone needs no menu program.
pub fn cmd_move_workspace(
    name: Option<String>,
    follow_mode: FollowMode,
    workspace: Option<u64>,
) -> (r: Progress)
    ensures
        r@ == (match name {
            Some(activity_name) => if follow_mode.follows() {
                probing(AfterProbe::MoveWorkspace { activity_name, follow: follow_mode, workspace })
            } else {
                move_workspace::beginning(activity_name, follow_mode, workspace)
            },
            None => probing(AfterProbe::MoveWorkspacePicker { follow: follow_mode, workspace }),
        }),
{
    match name {
        Some(activity_name) => if follow_mode.should_follow() {
            probe(AfterProbe::MoveWorkspace { activity_name, follow: follow_mode, workspace })
        } else {
            move_workspace::run(activity_name, follow_mode, workspace)
        },
        None => probe(AfterProbe::MoveWorkspacePicker { follow: follow_mode, workspace }),
    }
}

/// Assigns a workspace to activities.
pub fn cmd_assign_workspace(follow_mode: FollowMode, workspace: Option<u64>) -> (r: Progress)
    ensures
        r@ == probing(AfterProbe::AssignWorkspace { follow: follow_mode, workspace }),
{
    probe(AfterProbe::AssignWorkspace { follow: follow_mode, workspace })
}

/// Creates an activity.
pub fn cmd_create(name: String) -> (r: Progress)
    ensures
        r@ == create::creating(name, "creating activity", AfterCreated::Done),
{
    create::run(name)
}

/// Removes an activity.
pub fn cmd_remove(name: String) -> (r: Progress)
    ensures
        r@ == remove::removing(name),
{
    remove::run(name)
}

/// Gives an activity another name: the named one, or one from a menu.
pub fn cmd_rename(name: String, activity: Option<String>) -> (r: Progress)
    ensures
        r@ == (match activity {
            Some(target) => rename::renaming(
                ActivityReferenceView::Name(target@),
                name@,
                Some(target),
            ),
            None => probing(AfterProbe::Rename { new_name: name }),
        }),
{
    match activity {
        Some(target) => rename::run(
            ActivityReferenceArg::Name(target.clone()),
            name,
            Some(target),
        ),
        None => probe(AfterProbe::Rename { new_name: name }),
    }
}

/// Declares an activity in the config file.
pub fn cmd_save(name: String) -> (r: Progress)
    ensures
        r@ == save::saving(name).within("saving activity to config"@),
{
    save::run(name).within("saving activity to config")
}

/// Lists the activities.
pub fn cmd_list(
    json: bool,
    format: Option<String>,
    activity: Option<String>,
    order: Order,
) -> (r: Progress)
    ensures
        r@ == list::beginning(ListOpts { json, format, activity, order }),
{
    list::run(ListOpts { json, format, activity, order })
}

/// Writes a completion script.
pub fn cmd_completions(shell: Shell) -> (r: Progress)
    ensures
        r@ == completions::writing(shell),
{
    completions::run(shell)
}

/// A subcommand with its arguments.
#[derive(Debug)]
#[allow(inconsistent_fields)]
pub enum Cmd {
    Switch { name: Option<String>, order: Order },
    SwitchPrevious { depth: u32 },
    MoveWindow { name: Option<String>, follow: bool, overview: bool, window: Option<u64> },
    MoveWindowHere { follow: bool, overview: bool, window: Option<u64> },
    MoveWorkspace { name: Option<String>, follow: bool, overview: bool, workspace: Option<u64> },
    AssignWorkspace { follow: bool, overview: bool, workspace: Option<u64> },
    Create { name: String },
    Remove { name: String },
    Rename { name: String, activity: Option<String> },
    Save { name: String },
    List { json: bool, format: Option<String>, activity: Option<String>, order: Order },
    Completions { shell: Shell },
}

/// How a subcommand begins.
pub open spec fn started(cmd: Cmd) -> ProgressView {
    match cmd {
        Cmd::Switch { name: Some(name), order } => switch::switching(name),
        Cmd::Switch { name: None, order } => probing(AfterProbe::Switch { order }),
        Cmd::SwitchPrevious { depth } => switch_previous::going_back(depth),
        Cmd::MoveWindow { name: Some(activity_name), follow, overview, window } => {
            let then = AfterProbe::MoveWindow {
                activity_name,
                follow: follow_mode(follow, overview),
                window,
            };
            if follow || overview {
                probing(then)
            } else {
                beginning(then)
            }
        },
        Cmd::MoveWindow { name: None, follow, overview, window } => probing(
            AfterProbe::MoveWindowPicker { follow: follow_mode(follow, overview), window },
        ),
        Cmd::MoveWindowHere { follow, overview, window } => probing(
            AfterProbe::MoveWindowHere { follow: follow_mode(follow, overview), window },
        ),
        Cmd::MoveWorkspace { name: Some(activity_name), follow, overview, workspace } => {
            let then = AfterProbe::MoveWorkspace {
                activity_name,
                follow: follow_mode(follow, overview),
                workspace,
            };
            if follow || overview {
                probing(then)
            } else {
                beginning(then)
            }
        },
        Cmd::MoveWorkspace { name: None, follow, overview, workspace } => probing(
            AfterProbe::MoveWorkspacePicker { follow: follow_mode(follow, overview), workspace },
        ),
        Cmd::AssignWorkspace { follow, overview, workspace } => probing(
            AfterProbe::AssignWorkspace { follow: follow_mode(follow, overview), workspace },
        ),
        Cmd::Create { name } => create::creating(name, "creating activity", AfterCreated::Done),
        Cmd::Remove { name } => remove::removing(name),
        Cmd::Rename { name, activity: Some(target) } => rename::renaming(
            ActivityReferenceView::Name(target@),
            name@,
            Some(target),
        ),
        Cmd::Rename { name, activity: None } => probing(AfterProbe::Rename { new_name: name }),
        Cmd::Save { name } => save::saving(name).within("saving activity to config"@),
        Cmd::List { json, format, activity, order } => list::beginning(
            ListOpts { json, format, activity, order },
        ),
        Cmd::Completions { shell } => completions::writing(shell),
    }
}

/// Begins a subcommand.
pub fn dispatch(cmd: Cmd) -> (r: Progress)
    ensures
        r@ == started(cmd),
{
    match cmd {
        Cmd::Switch { name, order } => cmd_switch(name, order),
        Cmd::SwitchPrevious { depth } => cmd_switch_previous(depth),
        Cmd::MoveWindow { name, follow, overview, window } => {
            cmd_move_window(name, resolve_follow_overview(follow, overview), window)
        },
        Cmd::MoveWindowHere { follow, overview, window } => {
            cmd_move_window_here(resolve_follow_overview(follow, overview), window)
        },
        Cmd::MoveWorkspace { name, follow, overview, workspace } => {
            cmd_move_workspace(name, resolve_follow_overview(follow, overview), workspace)
        },
        Cmd::AssignWorkspace { follow, overview, workspace } => {
            cmd_assign_workspace(resolve_follow_overview(follow, overview), workspace)
        },
        Cmd::Create { name } => cmd_create(name),
        Cmd::Remove { name } => cmd_remove(name),
        Cmd::Rename { name, activity } => cmd_rename(name, activity),
        Cmd::Save { name } => cmd_save(name),
        Cmd::List { json, format, activity, order } => cmd_list(json, format, activity, order),
        Cmd::Completions { shell } => cmd_completions(shell),
    }
}

/// Whether a subcommand shows menus: one that is not given the name of its
/// activity does, and so does one that follows.
pub open spec fn shows_menus(cmd: Cmd) -> bool {
    match cmd {
        Cmd::Switch { name, .. } => name is None,
        Cmd::MoveWindow { name, follow, overview, .. } => name is None || follow || overview,
        Cmd::MoveWindowHere { .. } => true,
        Cmd::MoveWorkspace { name, follow, overview, .. } => name is None || follow || overview,
        Cmd::AssignWorkspace { .. } => true,
        Cmd::Rename { activity, .. } => activity is None,
        _ => false,
    }
}

/// A subcommand that shows menus first makes sure that the menu program is
/// there, and no other subcommand asks for one. Where the program is missing the
/// subcommand ends with that failure and has asked the compositor for nothing.
pub proof fn law_probe_comes_first(cmd: Cmd, then: AfterProbe, error: CliError)
    ensures
        started(cmd).step is Probe <==> shows_menus(cmd),
        started(cmd).step matches StepView::Probe { tool, then: next } ==> tool == tool_of(next),
        after_probe(then, Err(error)) == failed(typed_in(error@, probe_context(then))),
{
}

} // verus!
