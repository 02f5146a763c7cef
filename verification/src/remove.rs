//! The `remove` subcommand: an activity, by name.

use crate::flow::{AfterHandled, AfterReply, Progress, ProgressView, sending};
use crate::ipc::{Action, ActionView, ActivityReferenceArg, ActivityReferenceView, Request,
    RequestView};
use vstd::prelude::*;

verus! {

/// Removing the activity `name`.
pub open spec fn removing(name: String) -> ProgressView {
    sending(
        RequestView::Action(
            ActionView::RemoveActivity { activity: ActivityReferenceView::Name(name@) },
        ),
        AfterReply::Handled {
            activity_name: Some(name),
            context: "removing activity",
            next: AfterHandled::Done,
        },
    )
}

/// Removes the activity `name`.
pub fn run(name: String) -> (r: Progress)
    ensures
        r@ == removing(name),
{
    Progress::send(
        Request::Action(
            Action::RemoveActivity { activity: ActivityReferenceArg::Name(name.clone()) },
        ),
        AfterReply::Handled {
            activity_name: Some(name),
            context: "removing activity",
            next: AfterHandled::Done,
        },
    )
}

} // verus!
