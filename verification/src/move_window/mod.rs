//! The `move-window` and `move-window-here` subcommands: a window goes to a
//! workspace of an activity.
//!
//! Membership of an activity is a property of workspaces, so a window gets into
//! an activity by going to one of its workspaces. Named, the activity receives
//! the window on its trailing empty workspace. Otherwise the user chooses, in
//! two stages: the activity, then the workspace. `move-window-here` is the
//! second stage alone, for the active activity.
//!
//! The compositor keeps an empty workspace at the end of the active activity
//! only. That is why the menu offers a new workspace there and nowhere else.
//!
//! A move never takes the focus along, and it points to the workspace by its
//! id: positions and names may change before the compositor acts.

use crate::cli::FollowMode;
use crate::create::{creating, dispatch};
use crate::error::{CliError, CliErrorView, server, server_error, typed, typed_in};
use crate::flow::{AfterCreated, AfterName, AfterPick, AfterReply, Destination, Progress,
    ProgressView, Step, StepView, done, failed, picking, plain, sending};
use crate::ipc::{Action, ActionView, Activity, NoOpReason, Reply, Request, RequestView, Workspace,
    WorkspaceReferenceArg, WorkspaceReferenceView};
use crate::ipc_helpers::{HandledOutcome, activities_in, active_index, expect_activities,
    expect_handled_or_no_op, expect_workspaces, handled_or_no_op, names, workspaces_in};
use crate::move_window::rows::{Stage1Choice, Stage1Resolution, Stage2Choice,
    Stage2ResolutionLiteralOnly, Stage2ResolutionWithNew, compose_stage1_items,
    compose_stage2_items_literal_only, compose_stage2_items_with_new, current_row, label, new_row,
    new_workspace_row, resolve_stage1, resolve_stage2_literal_only, resolve_stage2_with_new,
    sentinel_names, stage1_choice, stage1_rows, stage2_choice, workspace_label, workspace_rows,
    workspace_sentinel_names};
use crate::move_window::snapshot::{NOTHING_CAPTURED, current_activity,
    decide_window_id_for_dispatch, find_named, focused_id, focused_output, focused_output_name,
    focused_workspace, lying_in, named, nothing_captured, sort_for_picker, trailing_empty,
    trailing_empty_workspace, window_to_move, workspaces_in_activity_on_focused_output};
use crate::order::ranked;
use crate::picker::{NameOutcome, PickerOutcome};
use crate::search::{found, lemma_first_is, lemma_first_none};
use crate::text::{debug_form, debug_text, decimal, decimal_text, slices, string_slices, texts};
use std::collections::HashMap;
use vstd::prelude::*;
use vstd::string::*;

pub mod laws;
pub mod rows;
pub mod snapshot;

verus! {

// ---- Lines on stderr -------------------------------------------------------

/// Shown where there is no activity to choose.
pub const NOTHING_TO_MOVE_TO: &'static str =
    "niri-activities: no activities configured; nothing to move window to";

/// Shown where the activity has no workspace on the output.
pub open spec fn no_workspaces(activity_name: Seq<char>) -> Seq<char> {
    "niri-activities: activity '"@ + activity_name
        + "' has no workspaces on the focused output; nothing to move window to"@
}

fn note_no_workspaces(activity_name: &str) -> (r: String)
    ensures
        r@ == no_workspaces(activity_name@),
{
    let mut s = "niri-activities: activity '".to_owned();
    s.append(activity_name);
    s.append("' has no workspaces on the focused output; nothing to move window to");
    s
}

/// Shown where every workspace of the activity on the output has a window.
pub open spec fn no_empty_workspace(activity_name: Seq<char>) -> Seq<char> {
    "niri-activities: activity '"@ + activity_name
        + "' has no empty workspaces on the focused output; create one or pick an existing workspace via `move-window` (no arg)"@
}

fn note_no_empty_workspace(activity_name: &str) -> (r: String)
    ensures
        r@ == no_empty_workspace(activity_name@),
{
    let mut s = "niri-activities: activity '".to_owned();
    s.append(activity_name);
    s.append(
        "' has no empty workspaces on the focused output; create one or pick an existing workspace via `move-window` (no arg)",
    );
    s
}

/// Shown after a move.
pub open spec fn confirmation(workspace_id: u64, activity_name: Seq<char>) -> Seq<char> {
    "niri-activities: moved focused window to workspace "@ + decimal(workspace_id as nat)
        + " in activity '"@ + activity_name + "'"@
}

/// The line that confirms a move.
pub fn format_move_confirmation(ws_id: u64, activity_name: &str) -> (r: String)
    ensures
        r@ == confirmation(ws_id, activity_name@),
{
    let mut s = "niri-activities: moved focused window to workspace ".to_owned();
    s.append(decimal_text(ws_id).as_str());
    s.append(" in activity '");
    s.append(activity_name);
    s.append("'");
    s
}

/// Whether a workspace has the given id.
pub open spec fn has_workspace_id(id: u64) -> spec_fn(Workspace) -> bool {
    |w: Workspace| w.id == id
}

/// The label of the workspace with the given id, as far as it is known.
pub open spec fn label_of(workspace_id: u64, workspaces: Seq<Workspace>) -> Seq<char> {
    match found(workspaces, has_workspace_id(workspace_id)) {
        Some(w) => label(w),
        None => "id "@ + decimal(workspace_id as nat),
    }
}

/// Shown where the window is on the workspace already.
pub open spec fn already_there(workspace_id: u64, workspaces: Seq<Workspace>) -> Seq<char> {
    "niri-activities: focused window is already in workspace "@ + label_of(workspace_id, workspaces)
        + "; nothing to move"@
}

/// The line that says that there is nothing to move.
pub fn format_already_current_breadcrumb(ws_id: u64, workspaces: &Vec<Workspace>) -> (r: String)
    ensures
        r@ == already_there(ws_id, workspaces@),
{
    let mut s = "niri-activities: focused window is already in workspace ".to_owned();
    let ghost p = has_workspace_id(ws_id);
    let mut i: usize = 0;
    while i < workspaces.len()
        invariant
            i <= workspaces@.len(),
            p == has_workspace_id(ws_id),
            forall|j: int| 0 <= j < i ==> !p(#[trigger] workspaces@[j]),
            s@ == "niri-activities: focused window is already in workspace "@,
        decreases workspaces@.len() - i,
    {
        if workspaces[i].id == ws_id {
            proof {
                lemma_first_is(workspaces@, p, i as int);
            }
            s.append(workspace_label(&workspaces[i]).as_str());
            s.append("; nothing to move");
            return s;
        }
        i = i + 1;
    }
    proof {
        lemma_first_none(workspaces@, p);
    }
    let bare = "id ".to_owned().concat(decimal_text(ws_id).as_str());
    s.append(bare.as_str());
    s.append("; nothing to move");
    s
}

/// Shown where the compositor names another workspace than the one asked for.
pub open spec fn other_workspace(reported: u64, asked: u64) -> Seq<char> {
    "niri-activities: warning: compositor reported AlreadyOnTarget for ws "@ + decimal(
        reported as nat,
    ) + " but we dispatched against ws "@ + decimal(asked as nat)
}

fn note_other_workspace(reported: u64, asked: u64) -> (r: String)
    ensures
        r@ == other_workspace(reported, asked),
{
    let mut s = "niri-activities: warning: compositor reported AlreadyOnTarget for ws ".to_owned();
    s.append(decimal_text(reported).as_str());
    s.append(" but we dispatched against ws ");
    s.append(decimal_text(asked).as_str());
    s
}

// ---- Moving ----------------------------------------------------------------

/// Asking to move a window.
pub open spec fn move_request(window_id: Option<u64>, workspace_id: u64) -> RequestView {
    RequestView::Action(
        ActionView::MoveWindowToWorkspace {
            window_id,
            reference: WorkspaceReferenceView::Id(workspace_id),
            focus: false,
        },
    )
}

/// Moving a window to a workspace.
pub open spec fn moving(
    workspace_id: u64,
    activity_name: String,
    workspaces: Vec<Workspace>,
    follow: FollowMode,
    window: Option<u64>,
) -> ProgressView {
    let p = sending(
        move_request(window_to_move(follow, window, workspaces@), workspace_id),
        AfterReply::MoveWindowDone { workspace_id, activity_name, workspaces },
    );
    if nothing_captured(follow, window, workspaces@) {
        p.noting(NOTHING_CAPTURED@)
    } else {
        p
    }
}

/// Asks the compositor to move a window to a workspace.
pub fn dispatch_move(
    workspace_id: u64,
    activity_name: String,
    workspaces: Vec<Workspace>,
    follow: FollowMode,
    window: Option<u64>,
) -> (r: Progress)
    ensures
        r@ == moving(workspace_id, activity_name, workspaces, follow, window),
{
    let (window_id, line) = decide_window_id_for_dispatch(follow, window, &workspaces);
    let p = Progress::send(
        Request::Action(
            Action::MoveWindowToWorkspace {
                window_id,
                reference: WorkspaceReferenceArg::Id(workspace_id),
                focus: false,
            },
        ),
        AfterReply::MoveWindowDone { workspace_id, activity_name, workspaces },
    );
    match line {
        Some(line) => p.noting(line.to_owned()),
        None => p,
    }
}

/// How a move ended.
pub open spec fn move_outcome(
    outcome: HandledOutcome,
    workspace_id: u64,
    activity_name: Seq<char>,
    workspaces: Seq<Workspace>,
) -> ProgressView {
    match outcome {
        HandledOutcome::Handled => done().noting(confirmation(workspace_id, activity_name)),
        HandledOutcome::NoOp(NoOpReason::AlreadyOnTarget { workspace_id: reported }) => {
            let p = done().noting(already_there(reported, workspaces));
            if reported != workspace_id {
                p.noting(other_workspace(reported, workspace_id))
            } else {
                p
            }
        },
        HandledOutcome::NoOp(NoOpReason::Unknown { shown }) => failed(
            typed(server("unexpected NoOpReason variant: "@ + shown@)),
        ),
    }
}

/// Says how a move ended. Where there was nothing to move, the compositor's
/// word on which workspace the window is on counts, not what was asked for.
pub fn handle_move_outcome(
    outcome: HandledOutcome,
    ws_id: u64,
    activity_name: &str,
    workspaces: &Vec<Workspace>,
) -> (r: Progress)
    ensures
        r@ == move_outcome(outcome, ws_id, activity_name@, workspaces@),
{
    match outcome {
        HandledOutcome::Handled => {
            Progress::done().noting(format_move_confirmation(ws_id, activity_name))
        },
        HandledOutcome::NoOp(NoOpReason::AlreadyOnTarget { workspace_id: reported }) => {
            let p = Progress::done().noting(
                format_already_current_breadcrumb(reported, workspaces),
            );
            if reported != ws_id {
                p.noting(note_other_workspace(reported, ws_id))
            } else {
                p
            }
        },
        HandledOutcome::NoOp(NoOpReason::Unknown { shown }) => {
            let message = "unexpected NoOpReason variant: ".to_owned().concat(shown.as_str());
            Progress::fail(server_error(message))
        },
    }
}

/// What follows the reply to a move.
pub open spec fn after_move(
    workspace_id: u64,
    activity_name: String,
    workspaces: Vec<Workspace>,
    reply: Reply,
) -> ProgressView {
    match handled_or_no_op(reply) {
        Err(e) => failed(typed_in(e, "moving window to workspace"@)),
        Ok(outcome) => move_outcome(outcome, workspace_id, activity_name@, workspaces@),
    }
}

/// Ends once the compositor has answered to a move.
pub fn moved(
    workspace_id: u64,
    activity_name: String,
    workspaces: Vec<Workspace>,
    reply: Reply,
) -> (r: Progress)
    ensures
        r@ == after_move(workspace_id, activity_name, workspaces, reply),
{
    match expect_handled_or_no_op(reply) {
        Err(e) => Progress::fail_in(e, "moving window to workspace"),
        Ok(outcome) => handle_move_outcome(
            outcome,
            workspace_id,
            activity_name.as_str(),
            &workspaces,
        ),
    }
}

// ---- To a named activity ---------------------------------------------------

/// Moves a window to the trailing empty workspace of the activity with the
/// given name.
pub fn run(activity_name: String, follow: FollowMode, window: Option<u64>) -> (r: Progress)
    ensures
        r@ == sending(
            RequestView::Activities,
            AfterReply::MoveWindowActivities { activity_name, follow, window },
        ),
{
    Progress::send(
        Request::Activities,
        AfterReply::MoveWindowActivities { activity_name, follow, window },
    )
}

/// Looking up the activity with the given name.
pub open spec fn looking_up(
    activity_name: String,
    follow: FollowMode,
    window: Option<u64>,
    reply: Reply,
) -> ProgressView {
    match activities_in(reply) {
        Err(e) => failed(typed_in(e, "requesting activities"@)),
        Ok(activities) => match named(activities@, activity_name@) {
            None => failed(typed(CliErrorView::ActivityNotFound(activity_name@))),
            Some(a) => sending(
                RequestView::Workspaces,
                AfterReply::MoveWindowWorkspaces {
                    activity_id: a.id,
                    activity_name,
                    follow,
                    window,
                },
            ),
        },
    }
}

/// Looks up the activity with the given name.
pub fn look_up(
    activity_name: String,
    follow: FollowMode,
    window: Option<u64>,
    reply: Reply,
) -> (r: Progress)
    ensures
        r@ == looking_up(activity_name, follow, window, reply),
{
    match expect_activities(reply) {
        Err(e) => Progress::fail_in(e, "requesting activities"),
        Ok(activities) => {
            let activity_id: u64 = match find_named(&activities, activity_name.as_str()) {
                None => {
                    return Progress::fail(CliError::ActivityNotFound(activity_name));
                },
                Some(a) => a.id,
            };
            Progress::send(
                Request::Workspaces,
                AfterReply::MoveWindowWorkspaces { activity_id, activity_name, follow, window },
            )
        },
    }
}

/// Moving a window to the trailing empty workspace of an activity.
pub open spec fn landing(
    activity_id: u64,
    activity_name: String,
    follow: FollowMode,
    window: Option<u64>,
    reply: Reply,
) -> ProgressView {
    match workspaces_in(reply) {
        Err(e) => failed(typed_in(e, "requesting workspaces"@)),
        Ok(workspaces) => match focused_output(workspaces@) {
            Err(e) => failed(typed(e)),
            Ok(output) => {
                let there = lying_in(workspaces@, activity_id, output);
                if there.len() == 0 {
                    done().noting(no_workspaces(activity_name@))
                } else {
                    match trailing_empty(there) {
                        None => done().noting(no_empty_workspace(activity_name@)),
                        Some(w) => moving(w.id, activity_name, workspaces, follow, window),
                    }
                }
            },
        },
    }
}

/// Moves a window to the trailing empty workspace of an activity.
pub fn land(
    activity_id: u64,
    activity_name: String,
    follow: FollowMode,
    window: Option<u64>,
    reply: Reply,
) -> (r: Progress)
    ensures
        r@ == landing(activity_id, activity_name, follow, window, reply),
{
    match expect_workspaces(reply) {
        Err(e) => Progress::fail_in(e, "requesting workspaces"),
        Ok(workspaces) => {
            let workspace_id: u64 = match focused_output_name(&workspaces) {
                Err(e) => {
                    return Progress::fail(e);
                },
                Ok(output) => {
                    let there = workspaces_in_activity_on_focused_output(
                        &workspaces,
                        activity_id,
                        output,
                    );
                    proof {
                        assert(there@.unref().len() == there@.len());
                    }
                    if there.len() == 0 {
                        return Progress::done().noting(note_no_workspaces(activity_name.as_str()));
                    }
                    match trailing_empty_workspace(&there) {
                        None => {
                            return Progress::done().noting(
                                note_no_empty_workspace(activity_name.as_str()),
                            );
                        },
                        Some(w) => w.id,
                    }
                },
            };
            dispatch_move(workspace_id, activity_name, workspaces, follow, window)
        },
    }
}

// ---- Choosing the activity -------------------------------------------------

/// Moves a window to a workspace that the user chooses, in two stages.
pub fn run_picker(follow: FollowMode, window: Option<u64>) -> (r: Progress)
    ensures
        r@ == sending(
            RequestView::Activities,
            AfterReply::MoveWindowPickerActivities { follow, window },
        ),
{
    Progress::send(
        Request::Activities,
        AfterReply::MoveWindowPickerActivities { follow, window },
    )
}

/// References to the names of activities.
fn name_slices(activities: &Vec<Activity>) -> (r: Vec<&str>)
    ensures
        slices(r@) == names(activities@),
{
    let mut out: Vec<&str> = Vec::new();
    let mut i: usize = 0;
    while i < activities.len()
        invariant
            i <= activities@.len(),
            out@.len() == i,
            forall|j: int| 0 <= j < i ==> (#[trigger] out@[j])@ == activities@[j].name@,
        decreases activities@.len() - i,
    {
        out.push(activities[i].name.as_str());
        i = i + 1;
    }
    proof {
        assert(slices(out@) =~= names(activities@));
    }
    out
}

/// The menu of activities.
pub open spec fn offering_activities(
    follow: FollowMode,
    window: Option<u64>,
    reply: Reply,
) -> ProgressView {
    match activities_in(reply) {
        Err(e) => failed(typed_in(e, "requesting activities"@)),
        Ok(activities) => if activities@.len() == 0 {
            done().noting(NOTHING_TO_MOVE_TO@)
        } else {
            picking(
                "Move window to activity:"@,
                stage1_rows(activities@),
                AfterPick::MoveWindowStage1 { activities, follow, window },
            )
        },
    }
}

/// Offers the activities, the active one and a new one.
pub fn offer_activities(follow: FollowMode, window: Option<u64>, reply: Reply) -> (r: Progress)
    ensures
        r@ == offering_activities(follow, window, reply),
{
    match expect_activities(reply) {
        Err(e) => Progress::fail_in(e, "requesting activities"),
        Ok(activities) => {
            if activities.len() == 0 {
                return Progress::done().noting(NOTHING_TO_MOVE_TO.to_owned());
            }
            let listed = name_slices(&activities);
            let sentinels = sentinel_names(listed.as_slice());
            let items = compose_stage1_items(&activities, &sentinels);
            Progress::pick(
                "Move window to activity:",
                items,
                AfterPick::MoveWindowStage1 { activities, follow, window },
            )
        },
    }
}

/// What follows the choice of an activity.
pub open spec fn activity_chosen(
    activities: Vec<Activity>,
    follow: FollowMode,
    window: Option<u64>,
    picked: Result<PickerOutcome, CliError>,
) -> ProgressView {
    let listed = names(activities@);
    match picked {
        Err(e) => failed(typed(e@)),
        Ok(outcome) => match stage1_choice(
            outcome,
            current_row(listed),
            new_row(listed),
            activities@,
        ) {
            Stage1Choice::Cancelled => done(),
            Stage1Choice::CurrentActivity => to_active(activities, follow, window),
            Stage1Choice::Selected(a) => fetching_workspaces(
                activities,
                Destination {
                    activity_id: a.id,
                    activity_name: a.name,
                    with_new: a.is_active,
                    follow,
                    window,
                },
            ),
            Stage1Choice::NewActivity => plain(
                StepView::PromptName {
                    prompt: "new activity name:"@,
                    then: AfterName::MoveWindowNewActivity { follow, window },
                },
            ),
            Stage1Choice::Unknown(row) => failed(
                typed(server("stage-1 picker returned row not in items: "@ + debug_form(row))),
            ),
        },
    }
}

/// Going on with the active activity.
pub open spec fn to_active(
    activities: Vec<Activity>,
    follow: FollowMode,
    window: Option<u64>,
) -> ProgressView {
    match active_index(activities@) {
        None => failed(typed(server("no active activity"@))),
        Some(k) => fetching_workspaces(
            activities,
            Destination {
                activity_id: activities@[k].id,
                activity_name: activities@[k].name,
                with_new: true,
                follow,
                window,
            },
        ),
    }
}

/// Goes on with the active activity.
fn go_to_active(activities: Vec<Activity>, follow: FollowMode, window: Option<u64>) -> (r: Progress)
    ensures
        r@ == to_active(activities, follow, window),
{
    let (activity_id, activity_name) = match current_activity(&activities) {
        Err(e) => {
            return Progress::fail(e);
        },
        Ok(a) => (a.id, a.name.clone()),
    };
    dispatch_stage2_with_new(activities, activity_id, activity_name, follow, window)
}

/// Goes on with the chosen activity.
pub fn choose_activity(
    activities: Vec<Activity>,
    follow: FollowMode,
    window: Option<u64>,
    picked: Result<PickerOutcome, CliError>,
) -> (r: Progress)
    ensures
        r@ == activity_chosen(activities, follow, window, picked),
{
    let outcome = match picked {
        Err(e) => {
            return Progress::fail(e);
        },
        Ok(outcome) => outcome,
    };
    let sentinels = {
        let listed = name_slices(&activities);
        sentinel_names(listed.as_slice())
    };
    let (activity_id, activity_name, is_active) = match resolve_stage1(
        outcome,
        &sentinels,
        &activities,
    ) {
        Stage1Resolution::Cancelled => {
            return Progress::done();
        },
        Stage1Resolution::CurrentActivity => {
            return go_to_active(activities, follow, window);
        },
        Stage1Resolution::NewActivity => {
            return Progress::at(
                Step::PromptName {
                    prompt: "new activity name:",
                    then: AfterName::MoveWindowNewActivity { follow, window },
                },
            );
        },
        Stage1Resolution::Unknown(row) => {
            let message = "stage-1 picker returned row not in items: ".to_owned().concat(
                debug_text(row.as_str()).as_str(),
            );
            return Progress::fail(server_error(message));
        },
        Stage1Resolution::Selected(a) => (a.id, a.name.clone(), a.is_active),
    };
    if is_active {
        dispatch_stage2_with_new(activities, activity_id, activity_name, follow, window)
    } else {
        dispatch_stage2_literal_only(activities, activity_id, activity_name, follow, window)
    }
}

// ---- A new activity --------------------------------------------------------

/// What follows the name for a new activity.
pub open spec fn name_given(
    follow: FollowMode,
    window: Option<u64>,
    named: Result<NameOutcome, CliError>,
) -> ProgressView {
    match named {
        Err(e) => failed(typed(e@)),
        Ok(NameOutcome::Cancelled) => done(),
        Ok(NameOutcome::Unnamed) => failed(
            typed(CliErrorView::Usage("new activity name must not be empty"@)),
        ),
        Ok(NameOutcome::Typed(name)) => creating(
            name,
            "creating activity from move-window picker",
            AfterCreated::MoveWindow { follow, window },
        ),
    }
}

/// Creates the activity that the user named; an empty name is refused before
/// the compositor is asked.
pub fn create_named(
    follow: FollowMode,
    window: Option<u64>,
    named: Result<NameOutcome, CliError>,
) -> (r: Progress)
    ensures
        r@ == name_given(follow, window, named),
{
    match named {
        Err(e) => Progress::fail(e),
        Ok(NameOutcome::Cancelled) => Progress::done(),
        Ok(NameOutcome::Unnamed) => Progress::fail(
            CliError::Usage("new activity name must not be empty".to_owned()),
        ),
        Ok(NameOutcome::Typed(name)) => create_activity_via_ipc(name, follow, window),
    }
}

/// Creates an activity to move a window to.
pub fn create_activity_via_ipc(name: String, follow: FollowMode, window: Option<u64>) -> (r:
    Progress)
    ensures
        r@ == creating(
            name,
            "creating activity from move-window picker",
            AfterCreated::MoveWindow { follow, window },
        ),
{
    dispatch(
        name,
        "creating activity from move-window picker",
        AfterCreated::MoveWindow { follow, window },
    )
}

/// Asking again for the activities: only the compositor knows the id of the new
/// one.
pub open spec fn fetching_after_create(
    name: String,
    follow: FollowMode,
    window: Option<u64>,
) -> ProgressView {
    sending(
        RequestView::Activities,
        AfterReply::MoveWindowNewActivity { activity_name: name, follow, window },
    )
}

/// Asks again for the activities.
pub fn fetch_after_create(name: String, follow: FollowMode, window: Option<u64>) -> (r: Progress)
    ensures
        r@ == fetching_after_create(name, follow, window),
{
    Progress::send(
        Request::Activities,
        AfterReply::MoveWindowNewActivity { activity_name: name, follow, window },
    )
}

/// Going on with the new activity.
pub open spec fn to_new_activity(
    activity_name: String,
    follow: FollowMode,
    window: Option<u64>,
    reply: Reply,
) -> ProgressView {
    match activities_in(reply) {
        Err(e) => failed(typed_in(e, "requesting activities after create"@)),
        Ok(activities) => match named(activities@, activity_name@) {
            None => failed(
                typed(
                    server(
                        "newly-created activity not present in post-create Activities snapshot"@,
                    ),
                ),
            ),
            Some(a) => fetching_workspaces(
                activities,
                Destination {
                    activity_id: a.id,
                    activity_name,
                    with_new: a.is_active,
                    follow,
                    window,
                },
            ).within("dispatching stage 2 against newly-created activity"@),
        },
    }
}

/// Goes on with the new activity.
pub fn go_to_new_activity(
    activity_name: String,
    follow: FollowMode,
    window: Option<u64>,
    reply: Reply,
) -> (r: Progress)
    ensures
        r@ == to_new_activity(activity_name, follow, window, reply),
{
    match expect_activities(reply) {
        Err(e) => Progress::fail_in(e, "requesting activities after create"),
        Ok(activities) => {
            let (activity_id, is_active) = match find_named(&activities, activity_name.as_str()) {
                None => {
                    return Progress::fail(
                        server_error(
                            "newly-created activity not present in post-create Activities snapshot".to_owned(),
                        ),
                    );
                },
                Some(a) => (a.id, a.is_active),
            };
            let p = if is_active {
                dispatch_stage2_with_new(activities, activity_id, activity_name, follow, window)
            } else {
                dispatch_stage2_literal_only(activities, activity_id, activity_name, follow, window)
            };
            p.within("dispatching stage 2 against newly-created activity")
        },
    }
}

// ---- Within the active activity --------------------------------------------

/// Moves a window to a workspace of the active activity that the user chooses.
pub fn run_here_picker(follow: FollowMode, window: Option<u64>) -> (r: Progress)
    ensures
        r@ == sending(
            RequestView::Activities,
            AfterReply::MoveWindowHereActivities { follow, window },
        ),
{
    Progress::send(Request::Activities, AfterReply::MoveWindowHereActivities { follow, window })
}

/// Going on with the active activity, once it is known.
pub open spec fn staying_here(follow: FollowMode, window: Option<u64>, reply: Reply) -> ProgressView {
    match activities_in(reply) {
        Err(e) => failed(typed_in(e, "requesting activities"@)),
        Ok(activities) => to_active(activities, follow, window),
    }
}

/// Goes on with the active activity, once it is known.
pub fn stay_here(follow: FollowMode, window: Option<u64>, reply: Reply) -> (r: Progress)
    ensures
        r@ == staying_here(follow, window, reply),
{
    match expect_activities(reply) {
        Err(e) => Progress::fail_in(e, "requesting activities"),
        Ok(activities) => go_to_active(activities, follow, window),
    }
}

// ---- Choosing the workspace ------------------------------------------------

/// Asking for the workspaces of a destination.
pub open spec fn fetching_workspaces(activities: Vec<Activity>, to: Destination) -> ProgressView {
    sending(RequestView::Workspaces, AfterReply::MoveWindowStage2 { activities, to })
}

/// Begins the choice of a workspace, with a new one on offer.
pub fn dispatch_stage2_with_new(
    activities: Vec<Activity>,
    activity_id: u64,
    activity_name: String,
    follow: FollowMode,
    window: Option<u64>,
) -> (r: Progress)
    ensures
        r@ == fetching_workspaces(
            activities,
            Destination { activity_id, activity_name, with_new: true, follow, window },
        ),
{
    Progress::send(
        Request::Workspaces,
        AfterReply::MoveWindowStage2 {
            activities,
            to: Destination { activity_id, activity_name, with_new: true, follow, window },
        },
    )
}

/// Begins the choice of a workspace, without a new one on offer.
pub fn dispatch_stage2_literal_only(
    activities: Vec<Activity>,
    activity_id: u64,
    activity_name: String,
    follow: FollowMode,
    window: Option<u64>,
) -> (r: Progress)
    ensures
        r@ == fetching_workspaces(
            activities,
            Destination { activity_id, activity_name, with_new: false, follow, window },
        ),
{
    Progress::send(
        Request::Workspaces,
        AfterReply::MoveWindowStage2 {
            activities,
            to: Destination { activity_id, activity_name, with_new: false, follow, window },
        },
    )
}

/// The names of activities by id.
pub open spec fn name_map(activities: Seq<Activity>) -> Map<u64, String>
    decreases activities.len(),
{
    if activities.len() == 0 {
        Map::empty()
    } else {
        name_map(activities.drop_last()).insert(activities.last().id, activities.last().name)
    }
}

/// The names of activities by id.
pub fn names_by_id(activities: &Vec<Activity>) -> (r: HashMap<u64, String>)
    ensures
        r@ == name_map(activities@),
{
    broadcast use vstd::std_specs::hash::group_hash_axioms;

    let mut map: HashMap<u64, String> = HashMap::new();
    let mut i: usize = 0;
    proof {
        assert(activities@.take(0).len() == 0);
    }
    while i < activities.len()
        invariant
            i <= activities@.len(),
            map@ == name_map(activities@.take(i as int)),
        decreases activities@.len() - i,
    {
        map.insert(activities[i].id, activities[i].name.clone());
        proof {
            let next = activities@.take(i + 1);
            assert(next.drop_last() =~= activities@.take(i as int));
            assert(next.last() == activities@[i as int]);
        }
        i = i + 1;
    }
    proof {
        assert(activities@.take(i as int) =~= activities@);
    }
    map
}

/// The workspaces to choose from, in the order of the menu.
pub open spec fn candidates(
    workspaces: Seq<Workspace>,
    activity_id: u64,
    output: Seq<char>,
) -> Seq<Workspace> {
    ranked(lying_in(workspaces, activity_id, output))
}

fn candidate_refs<'a>(workspaces: &'a Vec<Workspace>, activity_id: u64, output: &str) -> (r: Vec<
    &'a Workspace,
>)
    ensures
        r@.unref() == candidates(workspaces@, activity_id, output@),
{
    let mut there = workspaces_in_activity_on_focused_output(workspaces, activity_id, output);
    sort_for_picker(&mut there);
    there
}

/// The labels of workspaces.
pub open spec fn labels(workspaces: Seq<Workspace>) -> Seq<Seq<char>> {
    workspaces.map_values(|w: Workspace| label(w))
}

fn label_texts(workspaces: &Vec<&Workspace>) -> (r: Vec<String>)
    ensures
        texts(r@) == labels(workspaces@.unref()),
{
    let mut out: Vec<String> = Vec::new();
    let mut i: usize = 0;
    while i < workspaces.len()
        invariant
            i <= workspaces@.len(),
            out@.len() == i,
            forall|j: int| 0 <= j < i ==> (#[trigger] out@[j])@ == label(*workspaces@[j]),
        decreases workspaces@.len() - i,
    {
        out.push(workspace_label(workspaces[i]));
        i = i + 1;
    }
    proof {
        assert(texts(out@) =~= labels(workspaces@.unref()));
    }
    out
}

fn focused_workspace_id(workspaces: &Vec<Workspace>) -> (r: Option<u64>)
    ensures
        r == focused_id(workspaces@),
{
    match focused_workspace(workspaces) {
        Ok(w) => Some(w.id),
        Err(_) => None,
    }
}

/// The rows for the existing workspaces of a destination.
pub open spec fn destination_rows(
    activities: Seq<Activity>,
    workspaces: Seq<Workspace>,
    to: Destination,
    output: Seq<char>,
) -> Seq<Seq<char>> {
    workspace_rows(
        candidates(workspaces, to.activity_id, output),
        focused_id(workspaces),
        to.activity_id,
        name_map(activities),
    )
}

/// The row that stands for a new workspace of a destination.
pub open spec fn destination_new_row(
    activities: Seq<Activity>,
    workspaces: Seq<Workspace>,
    to: Destination,
    output: Seq<char>,
) -> Seq<char> {
    if to.with_new {
        new_workspace_row(labels(candidates(workspaces, to.activity_id, output)))
    } else {
        new_workspace_row(destination_rows(activities, workspaces, to, output))
    }
}

/// The menu of the workspaces of a destination.
pub open spec fn offering_workspaces(
    activities: Vec<Activity>,
    to: Destination,
    reply: Reply,
) -> ProgressView {
    match workspaces_in(reply) {
        Err(e) => failed(typed_in(e, "requesting workspaces"@)),
        Ok(workspaces) => match focused_output(workspaces@) {
            Err(e) => failed(typed(e)),
            Ok(output) => {
                let rows = destination_rows(activities@, workspaces@, to, output);
                if to.with_new {
                    picking(
                        "Move window to workspace:"@,
                        rows.push(destination_new_row(activities@, workspaces@, to, output)),
                        AfterPick::MoveWindowStage2 { activities, workspaces, to },
                    )
                } else if rows.len() == 0 {
                    done().noting(no_workspaces(to.activity_name@))
                } else {
                    picking(
                        "Move window to workspace:"@,
                        rows,
                        AfterPick::MoveWindowStage2 { activities, workspaces, to },
                    )
                }
            },
        },
    }
}

/// Offers the workspaces of a destination.
pub fn offer_workspaces(activities: Vec<Activity>, to: Destination, reply: Reply) -> (r: Progress)
    ensures
        r@ == offering_workspaces(activities, to, reply),
{
    let workspaces = match expect_workspaces(reply) {
        Err(e) => {
            return Progress::fail_in(e, "requesting workspaces");
        },
        Ok(workspaces) => workspaces,
    };
    let items = match focused_output_name(&workspaces) {
        Err(e) => {
            return Progress::fail(e);
        },
        Ok(output) => {
            let focus = focused_workspace_id(&workspaces);
            let there = candidate_refs(&workspaces, to.activity_id, output);
            let known = names_by_id(&activities);
            proof {
                assert(there@.unref().len() == there@.len());
            }
            if to.with_new {
                let listed = label_texts(&there);
                let listed_slices = string_slices(&listed);
                let sentinel = workspace_sentinel_names(listed_slices.as_slice());
                compose_stage2_items_with_new(
                    &there,
                    focus,
                    sentinel.as_str(),
                    to.activity_id,
                    &known,
                )
            } else {
                if there.len() == 0 {
                    return Progress::done().noting(
                        note_no_workspaces(to.activity_name.as_str()),
                    );
                }
                compose_stage2_items_literal_only(&there, focus, to.activity_id, &known)
            }
        },
    };
    Progress::pick(
        "Move window to workspace:",
        items,
        AfterPick::MoveWindowStage2 { activities, workspaces, to },
    )
}

/// What follows the choice of a workspace.
pub open spec fn workspace_chosen(
    activities: Vec<Activity>,
    workspaces: Vec<Workspace>,
    to: Destination,
    picked: Result<PickerOutcome, CliError>,
) -> ProgressView {
    match (picked, focused_output(workspaces@)) {
        (Err(e), _) => failed(typed(e@)),
        (Ok(PickerOutcome::Cancelled), _) => done(),
        (Ok(_), Err(e)) => failed(typed(e)),
        (Ok(outcome), Ok(output)) => {
            let there = candidates(workspaces@, to.activity_id, output);
            match stage2_choice(
                outcome,
                destination_new_row(activities@, workspaces@, to, output),
                there,
                focused_id(workspaces@),
                to.activity_id,
                name_map(activities@),
            ) {
                Stage2Choice::Cancelled => done(),
                Stage2Choice::Selected(w) => moving(
                    w.id,
                    to.activity_name,
                    workspaces,
                    to.follow,
                    to.window,
                ),
                Stage2Choice::AlreadyCurrent(id) => done().noting(already_there(id, workspaces@)),
                Stage2Choice::Unknown(row) => failed(
                    typed(
                        server("stage-2 picker returned label not in items: "@ + debug_form(row)),
                    ),
                ),
                Stage2Choice::NewWorkspace => if !to.with_new {
                    failed(
                        typed(
                            server("stage-2 literal-only path produced new-workspace sentinel"@),
                        ),
                    )
                } else {
                    match trailing_empty(there) {
                        None => failed(
                            typed(
                                server(
                                    "trailing-empty workspace expected for active activity"@,
                                ),
                            ),
                        ),
                        Some(w) => moving(
                            w.id,
                            to.activity_name,
                            workspaces,
                            to.follow,
                            to.window,
                        ),
                    }
                },
            }
        },
    }
}

/// What a chosen row comes to: a workspace to move to, or an end.
enum Chosen {
    Target(u64),
    End(Progress),
}

fn unknown_row(row: &str) -> (r: Progress)
    ensures
        r@ == failed(
            typed(server("stage-2 picker returned label not in items: "@ + debug_form(row@))),
        ),
{
    let message = "stage-2 picker returned label not in items: ".to_owned().concat(
        debug_text(row).as_str(),
    );
    Progress::fail(server_error(message))
}

/// Reads the choice from a menu that offers a new workspace.
fn read_with_new(
    activities: &Vec<Activity>,
    workspaces: &Vec<Workspace>,
    to: &Destination,
    outcome: PickerOutcome,
    output: &str,
) -> (r: Chosen)
    requires
        to.with_new,
        focused_output(workspaces@) == Ok::<Seq<char>, CliErrorView>(output@),
    ensures
        match r {
            Chosen::Target(id) => workspace_chosen(*activities, *workspaces, *to, Ok(outcome))
                == moving(id, to.activity_name, *workspaces, to.follow, to.window),
            Chosen::End(p) => workspace_chosen(*activities, *workspaces, *to, Ok(outcome)) == p@,
        },
{
    let focus = focused_workspace_id(workspaces);
    let there = candidate_refs(workspaces, to.activity_id, output);
    let known = names_by_id(activities);
    let listed = label_texts(&there);
    let listed_slices = string_slices(&listed);
    let sentinel = workspace_sentinel_names(listed_slices.as_slice());
    match resolve_stage2_with_new(
        outcome,
        sentinel.as_str(),
        &there,
        focus,
        to.activity_id,
        &known,
    ) {
        Stage2ResolutionWithNew::Cancelled => Chosen::End(Progress::done()),
        Stage2ResolutionWithNew::Selected(w) => Chosen::Target(w.id),
        Stage2ResolutionWithNew::AlreadyCurrent(id) => Chosen::End(
            Progress::done().noting(format_already_current_breadcrumb(id, workspaces)),
        ),
        Stage2ResolutionWithNew::Unknown(row) => Chosen::End(unknown_row(row.as_str())),
        Stage2ResolutionWithNew::NewWorkspace => match trailing_empty_workspace(&there) {
            None => Chosen::End(
                Progress::fail(
                    server_error(
                        "trailing-empty workspace expected for active activity".to_owned(),
                    ),
                ),
            ),
            Some(w) => Chosen::Target(w.id),
        },
    }
}

/// Reads the choice from a menu that offers no new workspace.
fn read_literal_only(
    activities: &Vec<Activity>,
    workspaces: &Vec<Workspace>,
    to: &Destination,
    outcome: PickerOutcome,
    output: &str,
) -> (r: Chosen)
    requires
        !to.with_new,
        focused_output(workspaces@) == Ok::<Seq<char>, CliErrorView>(output@),
    ensures
        match r {
            Chosen::Target(id) => workspace_chosen(*activities, *workspaces, *to, Ok(outcome))
                == moving(id, to.activity_name, *workspaces, to.follow, to.window),
            Chosen::End(p) => workspace_chosen(*activities, *workspaces, *to, Ok(outcome)) == p@,
        },
{
    let focus = focused_workspace_id(workspaces);
    let there = candidate_refs(workspaces, to.activity_id, output);
    let known = names_by_id(activities);
    let listed = compose_stage2_items_literal_only(&there, focus, to.activity_id, &known);
    let listed_slices = string_slices(&listed);
    let sentinel = workspace_sentinel_names(listed_slices.as_slice());
    match resolve_stage2_literal_only(
        outcome,
        sentinel.as_str(),
        &there,
        focus,
        to.activity_id,
        &known,
    ) {
        Stage2ResolutionLiteralOnly::Cancelled => Chosen::End(Progress::done()),
        Stage2ResolutionLiteralOnly::Selected(w) => Chosen::Target(w.id),
        Stage2ResolutionLiteralOnly::AlreadyCurrent(id) => Chosen::End(
            Progress::done().noting(format_already_current_breadcrumb(id, workspaces)),
        ),
        Stage2ResolutionLiteralOnly::Unknown(row) => Chosen::End(unknown_row(row.as_str())),
        Stage2ResolutionLiteralOnly::NewWorkspace => Chosen::End(
            Progress::fail(
                server_error(
                    "stage-2 literal-only path produced new-workspace sentinel".to_owned(),
                ),
            ),
        ),
    }
}

/// Moves the window to the chosen workspace.
pub fn choose_workspace(
    activities: Vec<Activity>,
    workspaces: Vec<Workspace>,
    to: Destination,
    picked: Result<PickerOutcome, CliError>,
) -> (r: Progress)
    ensures
        r@ == workspace_chosen(activities, workspaces, to, picked),
{
    let outcome = match picked {
        Err(e) => {
            return Progress::fail(e);
        },
        Ok(PickerOutcome::Cancelled) => {
            return Progress::done();
        },
        Ok(outcome) => outcome,
    };
    let chosen = match focused_output_name(&workspaces) {
        Err(e) => {
            return Progress::fail(e);
        },
        Ok(output) => {
            if to.with_new {
                read_with_new(&activities, &workspaces, &to, outcome, output)
            } else {
                read_literal_only(&activities, &workspaces, &to, outcome, output)
            }
        },
    };
    match chosen {
        Chosen::Target(id) => dispatch_move(
            id,
            to.activity_name,
            workspaces,
            to.follow,
            to.window,
        ),
        Chosen::End(p) => p,
    }
}

} // verus!
