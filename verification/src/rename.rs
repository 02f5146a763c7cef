//! The `rename` subcommand: another name for an activity.

use crate::error::{CliError, typed, typed_in};
use crate::flow::{AfterHandled, AfterPick, AfterReply, Progress, ProgressView, done, failed,
    picking, sending};
use crate::ipc::{Action, ActionView, ActivityReferenceArg, ActivityReferenceView, Reply, Request,
    RequestView};
use crate::ipc_helpers::{activities_in, expect_activities, focused_first, names_focused_first};
use crate::picker::PickerOutcome;
use vstd::prelude::*;
use vstd::string::*;

verus! {

/// Shown where there is nothing to rename.
pub const NOTHING_TO_RENAME: &'static str =
    "jiji-activities: no activities configured; nothing to rename";

/// Renaming the activity `target`.
pub open spec fn renaming(
    target: ActivityReferenceView,
    new_name: Seq<char>,
    target_name: Option<String>,
) -> ProgressView {
    sending(
        RequestView::Action(ActionView::RenameActivity { activity: target, name: new_name }),
        AfterReply::Handled {
            activity_name: target_name,
            context: "renaming activity",
            next: AfterHandled::Done,
        },
    )
}

/// Renames the activity `target`. Where the compositor does not know it,
/// `target_name` is reported as missing.
pub fn run(
    target: ActivityReferenceArg,
    new_name: String,
    target_name: Option<String>,
) -> (r: Progress)
    ensures
        r@ == renaming(target@, new_name@, target_name),
{
    Progress::send(
        Request::Action(Action::RenameActivity { activity: target, name: new_name }),
        AfterReply::Handled {
            activity_name: target_name,
            context: "renaming activity",
            next: AfterHandled::Done,
        },
    )
}

/// Renames an activity that the user chooses.
pub fn run_picker(new_name: String) -> (r: Progress)
    ensures
        r@ == sending(RequestView::Activities, AfterReply::RenameActivities { new_name }),
{
    Progress::send(Request::Activities, AfterReply::RenameActivities { new_name })
}

/// The menu of activities to rename.
pub open spec fn offering(new_name: String, reply: Reply) -> ProgressView {
    match activities_in(reply) {
        Err(e) => failed(typed_in(e, "requesting activities"@)),
        Ok(activities) => if activities@.len() == 0 {
            done().noting(NOTHING_TO_RENAME@)
        } else {
            picking(
                "Rename activity:"@,
                focused_first(activities@),
                AfterPick::Rename { new_name },
            )
        },
    }
}

/// Offers the activities, the active one first.
pub fn offer(new_name: String, reply: Reply) -> (r: Progress)
    ensures
        r@ == offering(new_name, reply),
{
    match expect_activities(reply) {
        Err(e) => Progress::fail_in(e, "requesting activities"),
        Ok(activities) => {
            if activities.len() == 0 {
                Progress::done().noting(NOTHING_TO_RENAME.to_owned())
            } else {
                Progress::pick(
                    "Rename activity:",
                    names_focused_first(&activities),
                    AfterPick::Rename { new_name },
                )
            }
        },
    }
}

/// What follows the choice of an activity to rename.
pub open spec fn chosen(
    new_name: String,
    picked: Result<PickerOutcome, CliError>,
) -> ProgressView {
    match picked {
        Err(e) => failed(typed(e@)),
        Ok(PickerOutcome::Cancelled) => done(),
        Ok(PickerOutcome::Selected(target)) => renaming(
            ActivityReferenceView::Name(target@),
            new_name@,
            Some(target),
        ),
    }
}

/// Renames the chosen activity.
pub fn choose_target(new_name: String, picked: Result<PickerOutcome, CliError>) -> (r: Progress)
    ensures
        r@ == chosen(new_name, picked),
{
    match picked {
        Err(e) => Progress::fail(e),
        Ok(PickerOutcome::Cancelled) => Progress::done(),
        Ok(PickerOutcome::Selected(target)) => run(
            ActivityReferenceArg::Name(target.clone()),
            new_name,
            Some(target),
        ),
    }
}

} // verus!
