//! Going on with a subcommand once a step was carried out.
//!
//! Each function takes the scope of the [`Progress`] that asked for the step,
//! what the step was asked for, and the answer.

use crate::assign_workspace;
use crate::cli;
use crate::completions;
use crate::create;
use crate::error::{CliError, Failure, IoFailure, typed_in};
use crate::flow::{AfterConfigRead, AfterConfigWritten, AfterHandled, AfterName, AfterPick,
    AfterPickMany, AfterPrint, AfterProbe, AfterReply, Progress, ProgressView, done, failed};
use crate::follow::{focus_moved_window, focusing_window, dispatch_follow_workspace,
    following_workspace, opening_overview, show_overview};
use crate::ipc::Reply;
use crate::ipc_helpers::{expect_handled, handled};
use crate::list;
use crate::move_window;
use crate::move_workspace;
use crate::picker::multi_select::MultiPickerOutcome;
use crate::picker::{NameOutcome, PickerOutcome};
use crate::rename;
use crate::save;
use crate::save::ConfigFile;
use crate::switch;
use crate::text::{slices, text_of};
use vstd::prelude::*;
use vstd::string::*;

verus! {

// ---- Replies ---------------------------------------------------------------

/// What comes after a confirmed action.
pub open spec fn proceeding(next: AfterHandled) -> ProgressView {
    match next {
        AfterHandled::Done => done(),
        AfterHandled::FocusWorkspace { workspace_id, overview } => following_workspace(
            workspace_id,
            overview,
        ),
        AfterHandled::FocusWindow { window_id, overview } => focusing_window(window_id, overview),
        AfterHandled::OpenOverview => opening_overview(),
        AfterHandled::AskFollowWorkspace { activity_name, workspace_id, overview } => {
            move_workspace::asking(activity_name, workspace_id, overview)
        },
        AfterHandled::AskFollowActivity { saved, workspace_id, overview } => {
            assign_workspace::asking(saved, workspace_id, overview)
        },
    }
}

fn proceed(next: AfterHandled) -> (r: Progress)
    ensures
        r@ == proceeding(next),
{
    match next {
        AfterHandled::Done => Progress::done(),
        AfterHandled::FocusWorkspace { workspace_id, overview } => {
            dispatch_follow_workspace(workspace_id, overview)
        },
        AfterHandled::FocusWindow { window_id, overview } => {
            focus_moved_window(window_id, overview)
        },
        AfterHandled::OpenOverview => show_overview(),
        AfterHandled::AskFollowWorkspace { activity_name, workspace_id, overview } => {
            move_workspace::ask_follow(activity_name, workspace_id, overview)
        },
        AfterHandled::AskFollowActivity { saved, workspace_id, overview } => {
            assign_workspace::ask_follow(saved, workspace_id, overview)
        },
    }
}

/// What follows a reply. `shown` is the response as it is shown to the user.
pub open spec fn replied(at: AfterReply, reply: Reply, shown: Seq<char>) -> ProgressView {
    match at {
        AfterReply::Handled { activity_name, context, next } => match handled(
            reply,
            text_of(activity_name),
        ) {
            Err(e) => failed(typed_in(e, context@)),
            Ok(_) => proceeding(next),
        },
        AfterReply::Created { name, context, next } => create::after_creation(
            name,
            context,
            next,
            reply,
        ),
        AfterReply::SwitchActivities { order } => switch::offering(order, reply),
        AfterReply::RenameActivities { new_name } => rename::offering(new_name, reply),
        AfterReply::MoveWorkspaceActivities { follow, workspace } => move_workspace::offering(
            follow,
            workspace,
            reply,
        ),
        AfterReply::MoveWorkspaceCapture { activity_name, follow } => {
            move_workspace::moving_focused(activity_name, follow, reply)
        },
        AfterReply::AssignActivities { follow, workspace } => assign_workspace::asking_workspaces(
            follow,
            workspace,
            reply,
        ),
        AfterReply::AssignWorkspaces { activities, follow, workspace } => {
            assign_workspace::offering(activities, follow, workspace, reply)
        },
        AfterReply::MoveWindowActivities { activity_name, follow, window } => {
            move_window::looking_up(activity_name, follow, window, reply)
        },
        AfterReply::MoveWindowWorkspaces { activity_id, activity_name, follow, window } => {
            move_window::landing(activity_id, activity_name, follow, window, reply)
        },
        AfterReply::MoveWindowPickerActivities { follow, window } => {
            move_window::offering_activities(follow, window, reply)
        },
        AfterReply::MoveWindowHereActivities { follow, window } => move_window::staying_here(
            follow,
            window,
            reply,
        ),
        AfterReply::MoveWindowNewActivity { activity_name, follow, window } => {
            move_window::to_new_activity(activity_name, follow, window, reply)
        },
        AfterReply::MoveWindowStage2 { activities, to } => move_window::offering_workspaces(
            activities,
            to,
            reply,
        ),
        AfterReply::MoveWindowDone { workspace_id, activity_name, workspaces } => {
            move_window::after_move(workspace_id, activity_name, workspaces, reply)
        },
        AfterReply::ListActivities { opts } => list::with_activities(opts, reply),
        AfterReply::ListWorkspaces { opts, activities } => list::with_workspaces(
            opts,
            activities,
            reply,
        ),
        AfterReply::ListWindows { opts, activities, workspaces } => list::with_windows(
            opts,
            activities,
            workspaces,
            reply,
        ),
        AfterReply::Reloaded { path } => save::after_reload(path@, reply, shown),
    }
}

/// Goes on once the compositor has replied, or could not be reached.
pub fn resume_reply(
    scope: Vec<&'static str>,
    at: AfterReply,
    reply: Reply,
    shown: &str,
) -> (r: Progress)
    ensures
        r@ == replied(at, reply, shown@).within_all(slices(scope@)),
{
    let next = match at {
        AfterReply::Handled { activity_name, context, next } => match expect_handled(
            reply,
            activity_name.as_ref(),
        ) {
            Err(e) => Progress::fail_in(e, context),
            Ok(_) => proceed(next),
        },
        AfterReply::Created { name, context, next } => create::created(name, context, next, reply),
        AfterReply::SwitchActivities { order } => switch::offer(order, reply),
        AfterReply::RenameActivities { new_name } => rename::offer(new_name, reply),
        AfterReply::MoveWorkspaceActivities { follow, workspace } => {
            move_workspace::offer(follow, workspace, reply)
        },
        AfterReply::MoveWorkspaceCapture { activity_name, follow } => {
            move_workspace::capture(activity_name, follow, reply)
        },
        AfterReply::AssignActivities { follow, workspace } => {
            assign_workspace::ask_workspaces(follow, workspace, reply)
        },
        AfterReply::AssignWorkspaces { activities, follow, workspace } => {
            assign_workspace::offer(activities, follow, workspace, reply)
        },
        AfterReply::MoveWindowActivities { activity_name, follow, window } => {
            move_window::look_up(activity_name, follow, window, reply)
        },
        AfterReply::MoveWindowWorkspaces { activity_id, activity_name, follow, window } => {
            move_window::land(activity_id, activity_name, follow, window, reply)
        },
        AfterReply::MoveWindowPickerActivities { follow, window } => {
            move_window::offer_activities(follow, window, reply)
        },
        AfterReply::MoveWindowHereActivities { follow, window } => {
            move_window::stay_here(follow, window, reply)
        },
        AfterReply::MoveWindowNewActivity { activity_name, follow, window } => {
            move_window::go_to_new_activity(activity_name, follow, window, reply)
        },
        AfterReply::MoveWindowStage2 { activities, to } => {
            move_window::offer_workspaces(activities, to, reply)
        },
        AfterReply::MoveWindowDone { workspace_id, activity_name, workspaces } => {
            move_window::moved(workspace_id, activity_name, workspaces, reply)
        },
        AfterReply::ListActivities { opts } => list::take_activities(opts, reply),
        AfterReply::ListWorkspaces { opts, activities } => {
            list::take_workspaces(opts, activities, reply)
        },
        AfterReply::ListWindows { opts, activities, workspaces } => {
            list::take_windows(opts, activities, workspaces, reply)
        },
        AfterReply::Reloaded { path } => save::reloaded(path, reply, shown),
    };
    next.within_all(&scope)
}

// ---- Menus and prompts -----------------------------------------------------

/// What follows a menu with one choice.
pub open spec fn picked_one(
    at: AfterPick,
    picked: Result<PickerOutcome, CliError>,
) -> ProgressView {
    match at {
        AfterPick::Switch { activities, order } => switch::chosen(activities, order, picked),
        AfterPick::Rename { new_name } => rename::chosen(new_name, picked),
        AfterPick::MoveWorkspace { follow, workspace } => move_workspace::chosen(
            follow,
            workspace,
            picked,
        ),
        AfterPick::FollowWorkspace { activity_name, workspace_id, overview } => {
            move_workspace::answered(activity_name, workspace_id, overview, picked)
        },
        AfterPick::AssignOne { workspace_id, follow } => assign_workspace::chosen_one(
            workspace_id,
            follow,
            picked,
        ),
        AfterPick::FollowActivity { saved, workspace_id, overview } => {
            assign_workspace::answered(saved, workspace_id, overview, picked)
        },
        AfterPick::MoveWindowStage1 { activities, follow, window } => move_window::activity_chosen(
            activities,
            follow,
            window,
            picked,
        ),
        AfterPick::MoveWindowStage2 { activities, workspaces, to } => {
            move_window::workspace_chosen(activities, workspaces, to, picked)
        },
    }
}

/// Goes on once the user has answered a menu with one choice, or it could not be
/// shown.
pub fn resume_pick(
    scope: Vec<&'static str>,
    at: AfterPick,
    picked: Result<PickerOutcome, CliError>,
) -> (r: Progress)
    ensures
        r@ == picked_one(at, picked).within_all(slices(scope@)),
{
    let next = match at {
        AfterPick::Switch { activities, order } => {
            switch::choose_activity(activities, order, picked)
        },
        AfterPick::Rename { new_name } => rename::choose_target(new_name, picked),
        AfterPick::MoveWorkspace { follow, workspace } => {
            move_workspace::choose_activity(follow, workspace, picked)
        },
        AfterPick::FollowWorkspace { activity_name, workspace_id, overview } => {
            move_workspace::answer_follow(activity_name, workspace_id, overview, picked)
        },
        AfterPick::AssignOne { workspace_id, follow } => {
            assign_workspace::choose_one(workspace_id, follow, picked)
        },
        AfterPick::FollowActivity { saved, workspace_id, overview } => {
            assign_workspace::answer_follow(saved, workspace_id, overview, picked)
        },
        AfterPick::MoveWindowStage1 { activities, follow, window } => {
            move_window::choose_activity(activities, follow, window, picked)
        },
        AfterPick::MoveWindowStage2 { activities, workspaces, to } => {
            move_window::choose_workspace(activities, workspaces, to, picked)
        },
    };
    next.within_all(&scope)
}

/// What follows a menu with several choices.
pub open spec fn picked_many(
    at: AfterPickMany,
    picked: Result<MultiPickerOutcome, CliError>,
) -> ProgressView {
    match at {
        AfterPickMany::Assign { activities, workspace_id, follow } => assign_workspace::chosen(
            activities,
            workspace_id,
            follow,
            picked,
        ),
    }
}

/// Goes on once the user has answered a menu with several choices, or it could
/// not be shown.
pub fn resume_pick_many(
    scope: Vec<&'static str>,
    at: AfterPickMany,
    picked: Result<MultiPickerOutcome, CliError>,
) -> (r: Progress)
    ensures
        r@ == picked_many(at, picked).within_all(slices(scope@)),
{
    let next = match at {
        AfterPickMany::Assign { activities, workspace_id, follow } => {
            assign_workspace::choose_activities(activities, workspace_id, follow, picked)
        },
    };
    next.within_all(&scope)
}

/// What follows asking for a name.
pub open spec fn named(at: AfterName, name: Result<NameOutcome, CliError>) -> ProgressView {
    match at {
        AfterName::MoveWindowNewActivity { follow, window } => move_window::name_given(
            follow,
            window,
            name,
        ),
    }
}

/// Goes on once the user has typed a name, or the prompt could not be shown.
pub fn resume_name(
    scope: Vec<&'static str>,
    at: AfterName,
    name: Result<NameOutcome, CliError>,
) -> (r: Progress)
    ensures
        r@ == named(at, name).within_all(slices(scope@)),
{
    let next = match at {
        AfterName::MoveWindowNewActivity { follow, window } => {
            move_window::create_named(follow, window, name)
        },
    };
    next.within_all(&scope)
}

/// Goes on once it is known whether a menu program is there.
pub fn resume_probe(
    scope: Vec<&'static str>,
    at: AfterProbe,
    found: Result<(), CliError>,
) -> (r: Progress)
    ensures
        r@ == cli::after_probe(at, found).within_all(slices(scope@)),
{
    cli::probed(at, found).within_all(&scope)
}

// ---- Files and output ------------------------------------------------------

/// What follows reading the config file.
pub open spec fn config_read(
    at: AfterConfigRead,
    config: Result<ConfigFile, CliError>,
) -> ProgressView {
    match at {
        AfterConfigRead::Save { name } => save::after_reading(name, config),
    }
}

/// Goes on once the config file was read, or could not be found.
pub fn resume_config_read(
    scope: Vec<&'static str>,
    at: AfterConfigRead,
    config: Result<ConfigFile, CliError>,
) -> (r: Progress)
    ensures
        r@ == config_read(at, config).within_all(slices(scope@)),
{
    let next = match at {
        AfterConfigRead::Save { name } => save::take_config(name, config),
    };
    next.within_all(&scope)
}

/// What follows writing the config file.
pub open spec fn config_written(
    at: AfterConfigWritten,
    written: Result<(), IoFailure>,
) -> ProgressView {
    match at {
        AfterConfigWritten::Save { path } => save::after_writing(path, written),
    }
}

/// Goes on once the config file was written, or could not be.
pub fn resume_config_written(
    scope: Vec<&'static str>,
    at: AfterConfigWritten,
    written: Result<(), IoFailure>,
) -> (r: Progress)
    ensures
        r@ == config_written(at, written).within_all(slices(scope@)),
{
    let next = match at {
        AfterConfigWritten::Save { path } => save::dispatch_reload(path, written),
    };
    next.within_all(&scope)
}

/// What follows printing.
pub open spec fn printed(at: AfterPrint, written: Result<(), Failure>) -> ProgressView {
    match at {
        AfterPrint::List => list::after_printing(written),
        AfterPrint::Completions => completions::after_printing(written),
    }
}

/// Goes on once something was printed, or could not be.
pub fn resume_print(
    scope: Vec<&'static str>,
    at: AfterPrint,
    written: Result<(), Failure>,
) -> (r: Progress)
    ensures
        r@ == printed(at, written).within_all(slices(scope@)),
{
    let next = match at {
        AfterPrint::List => list::printed(written),
        AfterPrint::Completions => completions::printed(written),
    };
    next.within_all(&scope)
}

} // verus!
