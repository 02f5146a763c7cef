//! Following something that was moved: focusing where it went, and perhaps
//! showing the overview.
//!
//! | What is followed                              | Requests, in this order                            |
//! | --------------------------------------------- | -------------------------------------------------- |
//! | [`dispatch_follow_workspace`]                 | `FocusWorkspace`, (`OpenOverview`)                 |
//! | [`dispatch_follow_workspace_and_window`]      | `FocusWorkspace`, `FocusWindow`, (`OpenOverview`)  |
//! | [`dispatch_follow_activity_and_workspace`]    | `SwitchActivity`, `FocusWorkspace`, (`OpenOverview`) |
//!
//! A workspace is always pointed to by its id: an index or a name might mean
//! another workspace by the time the compositor acts on it. No step here
//! reports a missing activity as such, since the names come from a menu that
//! listed existing activities only.

use crate::flow::{AfterHandled, AfterReply, Progress, ProgressView, sending};
use crate::ipc::{Action, ActionView, ActivityReferenceArg, ActivityReferenceView, Request,
    RequestView, WorkspaceReferenceArg, WorkspaceReferenceView};
use crate::text::{has_slice, slices};
use vstd::prelude::*;
use vstd::string::*;

verus! {

/// The row that declines to follow.
pub const STAY_UNICODE: &'static str = "« Stay »";

/// The row that declines to follow, where another row reads like
/// [`STAY_UNICODE`].
pub const STAY_FALLBACK: &'static str = "__jiji_activities_stay__";

/// The row that declines to follow, in a menu with the given other rows.
pub open spec fn stay_row(rows: Seq<Seq<char>>) -> Seq<char> {
    if rows.contains(STAY_UNICODE@) {
        STAY_FALLBACK@
    } else {
        STAY_UNICODE@
    }
}

/// The row that declines to follow, in a menu with the given other rows.
pub fn stay_sentinel(rows: &[&str]) -> (r: &'static str)
    ensures
        r@ == stay_row(slices(rows@)),
{
    if has_slice(rows, STAY_UNICODE) {
        STAY_FALLBACK
    } else {
        STAY_UNICODE
    }
}

/// The row that declines to follow is different from every other row, unless
/// both of its forms are taken.
pub proof fn law_stay_row_is_distinct(rows: Seq<Seq<char>>)
    requires
        !(rows.contains(STAY_UNICODE@) && rows.contains(STAY_FALLBACK@)),
    ensures
        !rows.contains(stay_row(rows)),
{
}

/// The row that declines to follow has its own form unless another row reads like
/// that, and then its other form.
pub proof fn law_stay_row_prefers_its_form(rows: Seq<Seq<char>>)
    ensures
        !rows.contains("« Stay »"@) ==> stay_row(rows) == "« Stay »"@,
        rows.contains("« Stay »"@) ==> stay_row(rows) == "__jiji_activities_stay__"@,
{
}

/// Asking to focus a workspace.
pub open spec fn focus_workspace(workspace_id: u64) -> RequestView {
    RequestView::Action(
        ActionView::FocusWorkspace {
            reference: WorkspaceReferenceView::Id(workspace_id),
            activity: None,
        },
    )
}

/// Asking to focus a window.
pub open spec fn focus_window(window_id: u64) -> RequestView {
    RequestView::Action(ActionView::FocusWindow { id: window_id })
}

/// Asking to open the overview.
pub open spec fn open_overview() -> RequestView {
    RequestView::Action(ActionView::OpenOverview)
}

/// Asking to switch to an activity.
pub open spec fn switch_activity(name: Seq<char>) -> RequestView {
    RequestView::Action(
        ActionView::SwitchActivity { activity: ActivityReferenceView::Name(name) },
    )
}

/// What comes last: the overview, where it is wanted.
pub open spec fn last_part(overview: bool) -> AfterHandled {
    if overview {
        AfterHandled::OpenOverview
    } else {
        AfterHandled::Done
    }
}

fn last_step(overview: bool) -> (r: AfterHandled)
    ensures
        r == last_part(overview),
{
    if overview {
        AfterHandled::OpenOverview
    } else {
        AfterHandled::Done
    }
}

/// Following a workspace.
pub open spec fn following_workspace(workspace_id: u64, overview: bool) -> ProgressView {
    sending(
        focus_workspace(workspace_id),
        AfterReply::Handled {
            activity_name: None,
            context: "focusing target workspace",
            next: last_part(overview),
        },
    )
}

/// Following a window on a workspace.
pub open spec fn following_window(
    workspace_id: u64,
    window_id: u64,
    overview: bool,
) -> ProgressView {
    sending(
        focus_workspace(workspace_id),
        AfterReply::Handled {
            activity_name: None,
            context: "focusing target workspace",
            next: AfterHandled::FocusWindow { window_id, overview },
        },
    )
}

/// Following a workspace into an activity.
pub open spec fn following_activity(
    activity_name: Seq<char>,
    workspace_id: u64,
    overview: bool,
) -> ProgressView {
    sending(
        switch_activity(activity_name),
        AfterReply::Handled {
            activity_name: None,
            context: "switching to selected activity",
            next: AfterHandled::FocusWorkspace { workspace_id, overview },
        },
    )
}

/// Focusing a window, then perhaps opening the overview.
pub open spec fn focusing_window(window_id: u64, overview: bool) -> ProgressView {
    sending(
        focus_window(window_id),
        AfterReply::Handled {
            activity_name: None,
            context: "focusing moved window",
            next: last_part(overview),
        },
    )
}

/// Opening the overview.
pub open spec fn opening_overview() -> ProgressView {
    sending(
        open_overview(),
        AfterReply::Handled {
            activity_name: None,
            context: "opening overview after follow",
            next: AfterHandled::Done,
        },
    )
}

/// Focuses a workspace, then perhaps opens the overview.
pub fn dispatch_follow_workspace(workspace_id: u64, with_overview: bool) -> (r: Progress)
    ensures
        r@ == following_workspace(workspace_id, with_overview),
{
    Progress::send(
        Request::Action(
            Action::FocusWorkspace {
                reference: WorkspaceReferenceArg::Id(workspace_id),
                activity: None,
            },
        ),
        AfterReply::Handled {
            activity_name: None,
            context: "focusing target workspace",
            next: last_step(with_overview),
        },
    )
}

/// Focuses a workspace, then a window on it, then perhaps opens the overview.
pub fn dispatch_follow_workspace_and_window(
    workspace_id: u64,
    window_id: u64,
    with_overview: bool,
) -> (r: Progress)
    ensures
        r@ == following_window(workspace_id, window_id, with_overview),
{
    Progress::send(
        Request::Action(
            Action::FocusWorkspace {
                reference: WorkspaceReferenceArg::Id(workspace_id),
                activity: None,
            },
        ),
        AfterReply::Handled {
            activity_name: None,
            context: "focusing target workspace",
            next: AfterHandled::FocusWindow { window_id, overview: with_overview },
        },
    )
}

/// Switches to an activity, then focuses a workspace, then perhaps opens the
/// overview. A workspace may be in several activities: switching first settles
/// in which of them it is focused.
pub fn dispatch_follow_activity_and_workspace(
    activity_name: &str,
    workspace_id: u64,
    with_overview: bool,
) -> (r: Progress)
    ensures
        r@ == following_activity(activity_name@, workspace_id, with_overview),
{
    Progress::send(
        Request::Action(
            Action::SwitchActivity {
                activity: ActivityReferenceArg::Name(activity_name.to_owned()),
            },
        ),
        AfterReply::Handled {
            activity_name: None,
            context: "switching to selected activity",
            next: AfterHandled::FocusWorkspace { workspace_id, overview: with_overview },
        },
    )
}

/// Focuses a window, then perhaps opens the overview.
pub fn focus_moved_window(window_id: u64, with_overview: bool) -> (r: Progress)
    ensures
        r@ == focusing_window(window_id, with_overview),
{
    Progress::send(
        Request::Action(Action::FocusWindow { id: window_id }),
        AfterReply::Handled {
            activity_name: None,
            context: "focusing moved window",
            next: last_step(with_overview),
        },
    )
}

/// Opens the overview.
pub fn show_overview() -> (r: Progress)
    ensures
        r@ == opening_overview(),
{
    Progress::send(
        Request::Action(Action::OpenOverview {  }),
        AfterReply::Handled {
            activity_name: None,
            context: "opening overview after follow",
            next: AfterHandled::Done,
        },
    )
}

} // verus!
