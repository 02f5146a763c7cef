//! The `move-workspace` subcommand: a workspace goes to another activity.
//!
//! The move itself never takes the focus along. Where it is to be followed, the
//! user is asked afterwards, and the workspace is pointed to by the id that it
//! had before the move: moving to another activity does not change it.

use crate::cli::FollowMode;
use crate::error::{CliError, server, server_error, typed, typed_in};
use crate::flow::{AfterHandled, AfterPick, AfterReply, Progress, ProgressView, done, failed,
    picking, sending};
use crate::follow::{dispatch_follow_workspace, following_workspace, stay_row, stay_sentinel};
use crate::ipc::{Action, ActionView, ActivityReferenceArg, ActivityReferenceView, Reply, Request,
    RequestView, Workspace, WorkspaceReferenceArg, WorkspaceReferenceView};
use crate::ipc_helpers::{activities_in, expect_activities, expect_workspaces, focused_first,
    names_focused_first, workspaces_in};
use crate::move_window::snapshot::{focused, focused_workspace};
use crate::picker::PickerOutcome;
use crate::text::{debug_form, debug_text, slices, str_eq, texts};
use vstd::prelude::*;
use vstd::string::*;

verus! {

/// Shown where there is no activity.
pub const NOTHING_TO_MOVE_TO: &'static str =
    "jiji-activities: no activities configured; nothing to move workspace to";

/// Asking to move a workspace.
pub open spec fn move_request(workspace: Option<u64>, activity_name: Seq<char>) -> RequestView {
    RequestView::Action(
        ActionView::MoveWorkspaceToActivity {
            workspace: match workspace {
                Some(id) => Some(WorkspaceReferenceView::Id(id)),
                None => None,
            },
            activity: ActivityReferenceView::Name(activity_name),
            focus: false,
        },
    )
}

/// Moving a workspace; `followed` is its id where it is to be followed.
pub open spec fn moving(
    workspace: Option<u64>,
    activity_name: String,
    followed: Option<u64>,
    overview: bool,
) -> ProgressView {
    sending(
        move_request(workspace, activity_name@),
        AfterReply::Handled {
            activity_name: Some(activity_name),
            context: "moving workspace to activity",
            next: match followed {
                Some(workspace_id) => AfterHandled::AskFollowWorkspace {
                    activity_name,
                    workspace_id,
                    overview,
                },
                None => AfterHandled::Done,
            },
        },
    )
}

/// Asks the compositor to move a workspace.
fn dispatch_move(
    workspace: Option<u64>,
    activity_name: String,
    followed: Option<u64>,
    overview: bool,
) -> (r: Progress)
    ensures
        r@ == moving(workspace, activity_name, followed, overview),
{
    let request = Request::Action(
        Action::MoveWorkspaceToActivity {
            workspace: match workspace {
                Some(id) => Some(WorkspaceReferenceArg::Id(id)),
                None => None,
            },
            activity: ActivityReferenceArg::Name(activity_name.clone()),
            focus: false,
        },
    );
    let next = match followed {
        Some(workspace_id) => AfterHandled::AskFollowWorkspace {
            activity_name: activity_name.clone(),
            workspace_id,
            overview,
        },
        None => AfterHandled::Done,
    };
    Progress::send(
        request,
        AfterReply::Handled {
            activity_name: Some(activity_name),
            context: "moving workspace to activity",
            next,
        },
    )
}

/// The beginning of a move: where it is to be followed and the workspace is
/// not given, the one that has the focus must be known first.
pub open spec fn beginning(
    activity_name: String,
    follow: FollowMode,
    workspace: Option<u64>,
) -> ProgressView {
    if follow.follows() && workspace is None {
        sending(
            RequestView::Workspaces,
            AfterReply::MoveWorkspaceCapture { activity_name, follow },
        )
    } else {
        moving(
            workspace,
            activity_name,
            if follow.follows() {
                workspace
            } else {
                None
            },
            follow.opens_overview(),
        )
    }
}

/// Moves a workspace to the activity with the given name: the one given, else
/// the one that has the focus.
pub fn run(activity_name: String, follow: FollowMode, workspace: Option<u64>) -> (r: Progress)
    ensures
        r@ == beginning(activity_name, follow, workspace),
{
    if follow.should_follow() {
        match workspace {
            Some(id) => dispatch_move(
                workspace,
                activity_name,
                Some(id),
                follow.with_overview(),
            ),
            None => Progress::send(
                Request::Workspaces,
                AfterReply::MoveWorkspaceCapture { activity_name, follow },
            ),
        }
    } else {
        dispatch_move(workspace, activity_name, None, follow.with_overview())
    }
}

/// The id of the focused workspace; a list without one is malformed.
pub fn focused_workspace_id(workspaces: &Vec<Workspace>) -> (r: Result<u64, CliError>)
    ensures
        match r {
            Ok(id) => focused(workspaces@) is Some && focused(workspaces@)->0.id == id,
            Err(e) => focused(workspaces@) is None && e@ == server("no focused workspace"@),
        },
{
    match focused_workspace(workspaces) {
        Ok(w) => Ok(w.id),
        Err(e) => Err(e),
    }
}

/// Moving the workspace that has the focus, to be followed.
pub open spec fn moving_focused(
    activity_name: String,
    follow: FollowMode,
    reply: Reply,
) -> ProgressView {
    match workspaces_in(reply) {
        Err(e) => failed(typed_in(e, "requesting workspaces for --follow capture"@)),
        Ok(workspaces) => match focused(workspaces@) {
            None => failed(typed(server("no focused workspace"@))),
            Some(w) => moving(None, activity_name, Some(w.id), follow.opens_overview()),
        },
    }
}

/// Moves the workspace that has the focus, to be followed.
pub fn capture(activity_name: String, follow: FollowMode, reply: Reply) -> (r: Progress)
    ensures
        r@ == moving_focused(activity_name, follow, reply),
{
    match expect_workspaces(reply) {
        Err(e) => Progress::fail_in(e, "requesting workspaces for --follow capture"),
        Ok(workspaces) => match focused_workspace_id(&workspaces) {
            Err(e) => Progress::fail(e),
            Ok(id) => dispatch_move(None, activity_name, Some(id), follow.with_overview()),
        },
    }
}

// ---- Following -------------------------------------------------------------

/// The row that agrees to follow.
pub open spec fn confirm_row(activity_name: Seq<char>) -> Seq<char> {
    "Follow workspace to activity '"@ + activity_name + "'?"@
}

fn confirm_text(activity_name: &str) -> (r: String)
    ensures
        r@ == confirm_row(activity_name@),
{
    let mut s = "Follow workspace to activity '".to_owned();
    s.append(activity_name);
    s.append("'?");
    s
}

/// The rows of the question whether to follow.
pub open spec fn follow_rows(activity_name: Seq<char>) -> Seq<Seq<char>> {
    let confirm = confirm_row(activity_name);
    seq![confirm, stay_row(seq![confirm])]
}

/// Asking whether to follow.
pub open spec fn asking(activity_name: String, workspace_id: u64, overview: bool) -> ProgressView {
    picking(
        "Follow?"@,
        follow_rows(activity_name@),
        AfterPick::FollowWorkspace { activity_name, workspace_id, overview },
    )
}

fn stay_text(confirm: &str) -> (r: &'static str)
    ensures
        r@ == stay_row(seq![confirm@]),
{
    let mut rows: Vec<&str> = Vec::new();
    rows.push(confirm);
    proof {
        assert(slices(rows@) =~= seq![confirm@]);
    }
    stay_sentinel(rows.as_slice())
}

/// Asks whether to follow.
pub fn ask_follow(activity_name: String, workspace_id: u64, overview: bool) -> (r: Progress)
    ensures
        r@ == asking(activity_name, workspace_id, overview),
{
    let confirm = confirm_text(activity_name.as_str());
    let stay = stay_text(confirm.as_str());
    let mut items: Vec<String> = Vec::new();
    items.push(confirm);
    items.push(stay.to_owned());
    proof {
        assert(texts(items@) =~= follow_rows(activity_name@));
    }
    Progress::pick(
        "Follow?",
        items,
        AfterPick::FollowWorkspace { activity_name, workspace_id, overview },
    )
}

/// What follows the answer.
pub open spec fn answered(
    activity_name: String,
    workspace_id: u64,
    overview: bool,
    picked: Result<PickerOutcome, CliError>,
) -> ProgressView {
    let confirm = confirm_row(activity_name@);
    match picked {
        Err(e) => failed(typed_in(e@, "running move-workspace follow picker"@)),
        Ok(PickerOutcome::Cancelled) => done(),
        Ok(PickerOutcome::Selected(row)) => if row@ == confirm {
            following_workspace(workspace_id, overview)
        } else if row@ == stay_row(seq![confirm]) {
            done()
        } else {
            failed(
                typed(server("follow picker returned row not in items: "@ + debug_form(row@))),
            )
        },
    }
}

/// Follows the workspace if the user agreed.
pub fn answer_follow(
    activity_name: String,
    workspace_id: u64,
    overview: bool,
    picked: Result<PickerOutcome, CliError>,
) -> (r: Progress)
    ensures
        r@ == answered(activity_name, workspace_id, overview, picked),
{
    match picked {
        Err(e) => Progress::fail_in(e, "running move-workspace follow picker"),
        Ok(PickerOutcome::Cancelled) => Progress::done(),
        Ok(PickerOutcome::Selected(row)) => {
            let confirm = confirm_text(activity_name.as_str());
            if str_eq(row.as_str(), confirm.as_str()) {
                return dispatch_follow_workspace(workspace_id, overview);
            }
            if str_eq(row.as_str(), stay_text(confirm.as_str())) {
                return Progress::done();
            }
            let message = "follow picker returned row not in items: ".to_owned().concat(
                debug_text(row.as_str()).as_str(),
            );
            Progress::fail(server_error(message))
        },
    }
}

// ---- Choosing the activity -------------------------------------------------

/// Moves a workspace to an activity that the user chooses.
pub fn run_picker(follow: FollowMode, workspace: Option<u64>) -> (r: Progress)
    ensures
        r@ == sending(
            RequestView::Activities,
            AfterReply::MoveWorkspaceActivities { follow, workspace },
        ),
{
    Progress::send(
        Request::Activities,
        AfterReply::MoveWorkspaceActivities { follow, workspace },
    )
}

/// The menu of activities to move a workspace to.
pub open spec fn offering(follow: FollowMode, workspace: Option<u64>, reply: Reply) -> ProgressView {
    match activities_in(reply) {
        Err(e) => failed(typed_in(e, "requesting activities"@)),
        Ok(activities) => if activities@.len() == 0 {
            done().noting(NOTHING_TO_MOVE_TO@)
        } else {
            picking(
                "Move workspace to activity:"@,
                focused_first(activities@),
                AfterPick::MoveWorkspace { follow, workspace },
            )
        },
    }
}

/// Offers the activities, the active one first.
pub fn offer(follow: FollowMode, workspace: Option<u64>, reply: Reply) -> (r: Progress)
    ensures
        r@ == offering(follow, workspace, reply),
{
    match expect_activities(reply) {
        Err(e) => Progress::fail_in(e, "requesting activities"),
        Ok(activities) => {
            if activities.len() == 0 {
                return Progress::done().noting(NOTHING_TO_MOVE_TO.to_owned());
            }
            Progress::pick(
                "Move workspace to activity:",
                names_focused_first(&activities),
                AfterPick::MoveWorkspace { follow, workspace },
            )
        },
    }
}

/// What follows the choice of an activity.
pub open spec fn chosen(
    follow: FollowMode,
    workspace: Option<u64>,
    picked: Result<PickerOutcome, CliError>,
) -> ProgressView {
    match picked {
        Err(e) => failed(typed(e@)),
        Ok(PickerOutcome::Cancelled) => done(),
        Ok(PickerOutcome::Selected(name)) => beginning(name, follow, workspace),
    }
}

/// Moves a workspace to the chosen activity.
pub fn choose_activity(
    follow: FollowMode,
    workspace: Option<u64>,
    picked: Result<PickerOutcome, CliError>,
) -> (r: Progress)
    ensures
        r@ == chosen(follow, workspace, picked),
{
    match picked {
        Err(e) => Progress::fail(e),
        Ok(PickerOutcome::Cancelled) => Progress::done(),
        Ok(PickerOutcome::Selected(name)) => run(name, follow, workspace),
    }
}

/// Both rows of the question whether to follow are understood: the first
/// follows, the second does not.
pub proof fn law_offered_answer_is_understood(
    activity_name: String,
    workspace_id: u64,
    overview: bool,
    yes: String,
    no: String,
)
    requires
        yes@ == follow_rows(activity_name@)[0],
        no@ == follow_rows(activity_name@)[1],
    ensures
        yes@ != no@,
        answered(activity_name, workspace_id, overview, Ok(PickerOutcome::Selected(yes)))
            == following_workspace(workspace_id, overview),
        answered(activity_name, workspace_id, overview, Ok(PickerOutcome::Selected(no))) == done(),
{
    let confirm = confirm_row(activity_name@);
    reveal_strlit("Follow workspace to activity '");
    reveal_strlit("« Stay »");
    reveal_strlit("__jiji_activities_stay__");
    assert(confirm[0] == 'F');
    assert(seq![confirm][0] == confirm);
}

} // verus!
