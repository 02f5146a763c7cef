//! The `switch-previous` subcommand: back in the history of activities.

use crate::flow::{AfterHandled, AfterReply, Progress, ProgressView, sending};
use crate::ipc::{Action, ActionView, Request, RequestView};
use vstd::prelude::*;

verus! {

/// Going back by `depth` activities.
pub open spec fn going_back(depth: u32) -> ProgressView {
    sending(
        RequestView::Action(ActionView::SwitchActivityPrevious { depth }),
        AfterReply::Handled {
            activity_name: None,
            context: "switching to previous activity",
            next: AfterHandled::Done,
        },
    )
}

/// Goes back by `depth` activities. The compositor interprets the depth: 0 is
/// the active activity, and one too deep is the oldest.
pub fn run(depth: u32) -> (r: Progress)
    ensures
        r@ == going_back(depth),
{
    Progress::send(
        Request::Action(Action::SwitchActivityPrevious { depth }),
        AfterReply::Handled {
            activity_name: None,
            context: "switching to previous activity",
            next: AfterHandled::Done,
        },
    )
}

} // verus!
