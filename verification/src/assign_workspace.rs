//! The `assign-workspace` subcommand: the activities that a workspace belongs
//! to.
//!
//! The workspace is settled before the menu opens, and pointed to by its id:
//! the focus may be elsewhere by the time the user confirms.

use crate::cli::FollowMode;
use crate::error::{CliError, server, server_error, typed, typed_in};
use crate::flow::{AfterHandled, AfterPick, AfterPickMany, AfterReply, Progress, ProgressView,
    Saved, Step, StepView, done, failed, picking, plain, sending};
use crate::follow::{dispatch_follow_activity_and_workspace, following_activity, stay_row,
    stay_sentinel};
use crate::ipc::{Action, ActionView, Activity, ActivityReferenceArg, ActivityReferenceView, Reply,
    Request, RequestView, Workspace, WorkspaceReferenceArg, WorkspaceReferenceView};
use crate::ipc_helpers::{activities_in, activity_names, expect_activities, expect_workspaces,
    names, workspaces_in};
use crate::move_window::has_workspace_id;
use crate::move_window::{name_map, names_by_id};
use crate::move_window::snapshot::{focused, focused_workspace};
use crate::picker::multi_select::{self, MultiPickerOutcome};
use crate::picker::PickerOutcome;
use crate::search::{found, lemma_first_is, lemma_first_none, lemma_first_where};
use crate::text::{copied, debug_form, debug_text, decimal, decimal_text, has_text, str_eq,
    string_slices, texts};
use vstd::prelude::*;
use vstd::string::*;

verus! {

/// Shown where there is no activity.
pub const NOTHING_TO_ASSIGN: &'static str =
    "jiji-activities: no activities configured; nothing to assign";

/// Assigns a workspace to activities that the user chooses: the one given, else
/// the one that has the focus.
pub fn run(follow: FollowMode, workspace: Option<u64>) -> (r: Progress)
    ensures
        r@ == sending(
            RequestView::Activities,
            AfterReply::AssignActivities { follow, workspace },
        ),
{
    Progress::send(Request::Activities, AfterReply::AssignActivities { follow, workspace })
}

/// Asking for the workspaces, unless there is no activity.
pub open spec fn asking_workspaces(
    follow: FollowMode,
    workspace: Option<u64>,
    reply: Reply,
) -> ProgressView {
    match activities_in(reply) {
        Err(e) => failed(typed_in(e, "requesting activities"@)),
        Ok(activities) => if activities@.len() == 0 {
            done().noting(NOTHING_TO_ASSIGN@)
        } else {
            sending(
                RequestView::Workspaces,
                AfterReply::AssignWorkspaces { activities, follow, workspace },
            )
        },
    }
}

/// Asks for the workspaces, unless there is no activity.
pub fn ask_workspaces(follow: FollowMode, workspace: Option<u64>, reply: Reply) -> (r: Progress)
    ensures
        r@ == asking_workspaces(follow, workspace, reply),
{
    match expect_activities(reply) {
        Err(e) => Progress::fail_in(e, "requesting activities"),
        Ok(activities) => {
            if activities.len() == 0 {
                return Progress::done().noting(NOTHING_TO_ASSIGN.to_owned());
            }
            Progress::send(
                Request::Workspaces,
                AfterReply::AssignWorkspaces { activities, follow, workspace },
            )
        },
    }
}

/// The workspace with the given id.
pub fn find_workspace(workspaces: &Vec<Workspace>, id: u64) -> (r: Option<&Workspace>)
    ensures
        match r {
            Some(w) => found(workspaces@, has_workspace_id(id)) == Some(*w),
            None => found(workspaces@, has_workspace_id(id)) is None,
        },
{
    let ghost p = has_workspace_id(id);
    let mut i: usize = 0;
    while i < workspaces.len()
        invariant
            i <= workspaces@.len(),
            p == has_workspace_id(id),
            forall|j: int| 0 <= j < i ==> !p(#[trigger] workspaces@[j]),
        decreases workspaces@.len() - i,
    {
        if workspaces[i].id == id {
            proof {
                lemma_first_is(workspaces@, p, i as int);
            }
            return Some(&workspaces[i]);
        }
        i = i + 1;
    }
    proof {
        lemma_first_none(workspaces@, p);
    }
    None
}

/// Whether the activity with the given id has a known name.
pub open spec fn is_known(known: Map<u64, String>) -> spec_fn(u64) -> bool {
    |id: u64| known.contains_key(id)
}

/// The name of an activity.
pub open spec fn known_name(known: Map<u64, String>) -> spec_fn(u64) -> Seq<char> {
    |id: u64| known[id]@
}

/// The names of the activities that a workspace belongs to; an activity that
/// is not listed has none.
pub open spec fn memberships(w: Workspace, activities: Seq<Activity>) -> Seq<Seq<char>> {
    w.activities@.filter(is_known(name_map(activities))).map_values(
        known_name(name_map(activities)),
    )
}

/// The names of the activities that a workspace belongs to.
pub fn workspace_activity_names(ws: &Workspace, activities: &Vec<Activity>) -> (r: Vec<String>)
    ensures
        texts(r@) == memberships(*ws, activities@),
{
    broadcast use vstd::std_specs::hash::group_hash_axioms;

    let by_id = names_by_id(activities);
    let ghost known = by_id@;
    let ghost p = is_known(known);
    let ghost f = known_name(known);
    let mut out: Vec<String> = Vec::new();
    let mut i: usize = 0;
    proof {
        reveal(Seq::filter);
        assert(texts(out@) =~= ws.activities@.take(0).filter(p).map_values(f));
    }
    while i < ws.activities.len()
        invariant
            i <= ws.activities@.len(),
            known == by_id@,
            p == is_known(known),
            f == known_name(known),
            texts(out@) == ws.activities@.take(i as int).filter(p).map_values(f),
        decreases ws.activities@.len() - i,
    {
        let id: u64 = ws.activities[i];
        let ghost before = out@;
        match by_id.get(&id) {
            Some(name) => {
                out.push(name.clone());
            },
            None => {},
        }
        proof {
            let next = ws.activities@.take(i + 1);
            assert(next.drop_last() =~= ws.activities@.take(i as int));
            assert(next.last() == id);
            reveal(Seq::filter);
            if p(id) {
                assert(texts(out@) =~= texts(before).push(known[id]@));
                assert(next.filter(p).map_values(f) =~= next.drop_last().filter(p).map_values(
                    f,
                ).push(known[id]@));
            }
        }
        i = i + 1;
    }
    proof {
        assert(ws.activities@.take(i as int) =~= ws.activities@);
    }
    out
}

/// The message where the given workspace is not listed.
pub open spec fn not_listed(id: u64) -> Seq<char> {
    "workspace id "@ + decimal(id as nat) + " not found in snapshot"@
}

/// The menu of activities, with those marked that the workspace belongs to.
pub open spec fn offering_for(
    activities: Vec<Activity>,
    follow: FollowMode,
    w: Workspace,
) -> ProgressView {
    plain(
        StepView::PickMany {
            names: names(activities@),
            current: memberships(w, activities@),
            then: AfterPickMany::Assign { activities, workspace_id: w.id, follow },
        },
    )
}

/// The menu of activities for the workspace that is to be assigned.
pub open spec fn offering(
    activities: Vec<Activity>,
    follow: FollowMode,
    workspace: Option<u64>,
    reply: Reply,
) -> ProgressView {
    match workspaces_in(reply) {
        Err(e) => failed(typed_in(e, "requesting workspaces"@)),
        Ok(workspaces) => match workspace {
            Some(id) => match found(workspaces@, has_workspace_id(id)) {
                Some(w) => offering_for(activities, follow, w),
                None => failed(
                    typed_in(server(not_listed(id)), "locating explicit workspace in snapshot"@),
                ),
            },
            None => match focused(workspaces@) {
                Some(w) => offering_for(activities, follow, w),
                None => failed(
                    typed_in(server("no focused workspace"@), "locating focused workspace"@),
                ),
            },
        },
    }
}

fn offer_for(activities: Vec<Activity>, follow: FollowMode, w: &Workspace) -> (r: Progress)
    ensures
        r@ == offering_for(activities, follow, *w),
{
    let listed = activity_names(&activities);
    let current = workspace_activity_names(w, &activities);
    Progress::at(
        Step::PickMany {
            names: listed,
            current,
            then: AfterPickMany::Assign { activities, workspace_id: w.id, follow },
        },
    )
}

/// Offers the activities for the workspace that is to be assigned.
pub fn offer(
    activities: Vec<Activity>,
    follow: FollowMode,
    workspace: Option<u64>,
    reply: Reply,
) -> (r: Progress)
    ensures
        r@ == offering(activities, follow, workspace, reply),
{
    let workspaces = match expect_workspaces(reply) {
        Err(e) => {
            return Progress::fail_in(e, "requesting workspaces");
        },
        Ok(workspaces) => workspaces,
    };
    match workspace {
        Some(id) => match find_workspace(&workspaces, id) {
            Some(w) => offer_for(activities, follow, w),
            None => {
                let mut message = "workspace id ".to_owned();
                message.append(decimal_text(id).as_str());
                message.append(" not found in snapshot");
                Progress::fail_in(
                    server_error(message),
                    "locating explicit workspace in snapshot",
                )
            },
        },
        None => match focused_workspace(&workspaces) {
            Ok(w) => offer_for(activities, follow, w),
            Err(e) => Progress::fail_in(e, "locating focused workspace"),
        },
    }
}

// ---- Assigning -------------------------------------------------------------

impl Saved {
    /// The names.
    pub open spec fn texts(self) -> Seq<Seq<char>> {
        match self {
            Saved::One(name) => seq![name@],
            Saved::Many(list) => crate::text::texts(list@),
        }
    }
}

/// References to activities by name.
pub open spec fn by_name(listed: Seq<Seq<char>>) -> Seq<ActivityReferenceView> {
    listed.map_values(|name: Seq<char>| ActivityReferenceView::Name(name))
}

/// Asking to assign a workspace.
pub open spec fn set_request(workspace_id: u64, listed: Seq<Seq<char>>) -> RequestView {
    RequestView::Action(
        ActionView::SetWorkspaceActivities {
            workspace: Some(WorkspaceReferenceView::Id(workspace_id)),
            activities: by_name(listed),
        },
    )
}

/// Assigning a workspace.
pub open spec fn assigning(workspace_id: u64, saved: Saved, follow: FollowMode) -> ProgressView {
    sending(
        set_request(workspace_id, saved.texts()),
        AfterReply::Handled {
            activity_name: None,
            context: "assigning workspace activities",
            next: if follow.follows() && saved.texts().len() > 0 {
                AfterHandled::AskFollowActivity {
                    saved,
                    workspace_id,
                    overview: follow.opens_overview(),
                }
            } else {
                AfterHandled::Done
            },
        },
    )
}

/// References to the saved activities by name.
fn saved_references(saved: &Saved) -> (r: Vec<ActivityReferenceArg>)
    ensures
        r@.map_values(|a: ActivityReferenceArg| a@) == by_name(saved.texts()),
{
    let mut out: Vec<ActivityReferenceArg> = Vec::new();
    match saved {
        Saved::One(name) => {
            out.push(ActivityReferenceArg::Name(name.clone()));
        },
        Saved::Many(list) => {
            let mut i: usize = 0;
            while i < list.len()
                invariant
                    i <= list@.len(),
                    out@.len() == i,
                    forall|j: int|
                        0 <= j < i ==> (#[trigger] out@[j])@ == ActivityReferenceView::Name(
                            list@[j]@,
                        ),
                decreases list@.len() - i,
            {
                out.push(ActivityReferenceArg::Name(list[i].clone()));
                i = i + 1;
            }
        },
    }
    proof {
        assert(out@.map_values(|a: ActivityReferenceArg| a@) =~= by_name(saved.texts()));
    }
    out
}

fn has_names(saved: &Saved) -> (r: bool)
    ensures
        r == (saved.texts().len() > 0),
{
    match saved {
        Saved::One(_) => true,
        Saved::Many(list) => list.len() > 0,
    }
}

/// Assigns a workspace to the saved activities, then perhaps asks which of them
/// to follow it into.
pub fn dispatch_set(workspace_id: u64, saved: Saved, follow: FollowMode) -> (r: Progress)
    ensures
        r@ == assigning(workspace_id, saved, follow),
{
    let request = Request::Action(
        Action::SetWorkspaceActivities {
            workspace: Some(WorkspaceReferenceArg::Id(workspace_id)),
            activities: saved_references(&saved),
        },
    );
    let next = if follow.should_follow() && has_names(&saved) {
        AfterHandled::AskFollowActivity { saved, workspace_id, overview: follow.with_overview() }
    } else {
        AfterHandled::Done
    };
    Progress::send(
        request,
        AfterReply::Handled { activity_name: None, context: "assigning workspace activities", next },
    )
}

/// What follows the choice of several activities.
pub open spec fn chosen(
    activities: Vec<Activity>,
    workspace_id: u64,
    follow: FollowMode,
    picked: Result<MultiPickerOutcome, CliError>,
) -> ProgressView {
    match picked {
        Err(e) => failed(typed_in(e@, "running assign-workspace picker"@)),
        Ok(MultiPickerOutcome::Cancelled) => done(),
        Ok(MultiPickerOutcome::Selected(list)) => assigning(
            workspace_id,
            Saved::Many(list),
            follow,
        ),
        Ok(MultiPickerOutcome::ChainSingle) => picking(
            "Assign workspace to (one):"@,
            names(activities@),
            AfterPick::AssignOne { workspace_id, follow },
        ),
    }
}

/// Assigns the chosen activities, or lets the user choose a single one.
pub fn choose_activities(
    activities: Vec<Activity>,
    workspace_id: u64,
    follow: FollowMode,
    picked: Result<MultiPickerOutcome, CliError>,
) -> (r: Progress)
    ensures
        r@ == chosen(activities, workspace_id, follow, picked),
{
    match picked {
        Err(e) => Progress::fail_in(e, "running assign-workspace picker"),
        Ok(MultiPickerOutcome::Cancelled) => Progress::done(),
        Ok(MultiPickerOutcome::Selected(list)) => dispatch_set(
            workspace_id,
            Saved::Many(list),
            follow,
        ),
        Ok(MultiPickerOutcome::ChainSingle) => pick_one_chained(
            activity_names(&activities),
            workspace_id,
            follow,
        ),
    }
}

/// Lets the user choose a single activity.
pub fn pick_one_chained(
    activity_names: Vec<String>,
    workspace_id: u64,
    follow: FollowMode,
) -> (r: Progress)
    ensures
        r@ == picking(
            "Assign workspace to (one):"@,
            texts(activity_names@),
            AfterPick::AssignOne { workspace_id, follow },
        ),
{
    Progress::pick(
        "Assign workspace to (one):",
        activity_names,
        AfterPick::AssignOne { workspace_id, follow },
    )
}

/// What follows the choice of a single activity.
pub open spec fn chosen_one(
    workspace_id: u64,
    follow: FollowMode,
    picked: Result<PickerOutcome, CliError>,
) -> ProgressView {
    match picked {
        Err(e) => failed(typed_in(e@, "running assign-workspace chained picker"@)),
        Ok(PickerOutcome::Cancelled) => done(),
        Ok(PickerOutcome::Selected(name)) => assigning(workspace_id, Saved::One(name), follow),
    }
}

/// Assigns the single chosen activity.
pub fn choose_one(
    workspace_id: u64,
    follow: FollowMode,
    picked: Result<PickerOutcome, CliError>,
) -> (r: Progress)
    ensures
        r@ == chosen_one(workspace_id, follow, picked),
{
    match picked {
        Err(e) => Progress::fail_in(e, "running assign-workspace chained picker"),
        Ok(PickerOutcome::Cancelled) => Progress::done(),
        Ok(PickerOutcome::Selected(name)) => dispatch_set(workspace_id, Saved::One(name), follow),
    }
}

// ---- Following -------------------------------------------------------------

/// The rows of the question which activity to follow into.
pub open spec fn follow_rows(saved: Saved) -> Seq<Seq<char>> {
    saved.texts().push(stay_row(saved.texts()))
}

/// Asking which activity to follow into.
pub open spec fn asking(saved: Saved, workspace_id: u64, overview: bool) -> ProgressView {
    picking(
        "Follow?"@,
        follow_rows(saved),
        AfterPick::FollowActivity { saved, workspace_id, overview },
    )
}

/// Copies of the saved names.
fn saved_names(saved: &Saved) -> (r: Vec<String>)
    ensures
        texts(r@) == saved.texts(),
{
    match saved {
        Saved::One(name) => {
            let mut out: Vec<String> = Vec::new();
            out.push(name.clone());
            proof {
                assert(texts(out@) =~= saved.texts());
            }
            out
        },
        Saved::Many(list) => copied(list),
    }
}

fn stay_among(rows: &Vec<String>) -> (r: &'static str)
    ensures
        r@ == stay_row(texts(rows@)),
{
    let refs = string_slices(rows);
    stay_sentinel(refs.as_slice())
}

/// Asks which of the saved activities to follow the workspace into.
pub fn ask_follow(saved: Saved, workspace_id: u64, overview: bool) -> (r: Progress)
    ensures
        r@ == asking(saved, workspace_id, overview),
{
    let mut items = saved_names(&saved);
    let stay = stay_among(&items);
    let ghost before = items@;
    items.push(stay.to_owned());
    proof {
        assert(texts(items@) =~= texts(before).push(stay@));
    }
    Progress::pick(
        "Follow?",
        items,
        AfterPick::FollowActivity { saved, workspace_id, overview },
    )
}

/// What follows the answer.
pub open spec fn answered(
    saved: Saved,
    workspace_id: u64,
    overview: bool,
    picked: Result<PickerOutcome, CliError>,
) -> ProgressView {
    match picked {
        Err(e) => failed(typed_in(e@, "running assign-workspace follow picker"@)),
        Ok(PickerOutcome::Cancelled) => done(),
        Ok(PickerOutcome::Selected(row)) => if row@ == stay_row(saved.texts()) {
            done()
        } else if saved.texts().contains(row@) {
            following_activity(row@, workspace_id, overview)
        } else {
            failed(
                typed(server("follow picker returned row not in items: "@ + debug_form(row@))),
            )
        },
    }
}

/// Follows the workspace into the chosen activity.
pub fn answer_follow(
    saved: Saved,
    workspace_id: u64,
    overview: bool,
    picked: Result<PickerOutcome, CliError>,
) -> (r: Progress)
    ensures
        r@ == answered(saved, workspace_id, overview, picked),
{
    match picked {
        Err(e) => Progress::fail_in(e, "running assign-workspace follow picker"),
        Ok(PickerOutcome::Cancelled) => Progress::done(),
        Ok(PickerOutcome::Selected(row)) => {
            let rows = saved_names(&saved);
            if str_eq(row.as_str(), stay_among(&rows)) {
                return Progress::done();
            }
            if has_text(&rows, row.as_str()) {
                return dispatch_follow_activity_and_workspace(
                    row.as_str(),
                    workspace_id,
                    overview,
                );
            }
            let message = "follow picker returned row not in items: ".to_owned().concat(
                debug_text(row.as_str()).as_str(),
            );
            Progress::fail(server_error(message))
        },
    }
}

/// Every row of the question which activity to follow into is understood,
/// unless the row that declines has no form left that is not also the name of
/// an activity: the last row declines, and any other row means that activity.
pub proof fn law_offered_answer_is_understood(
    saved: Saved,
    workspace_id: u64,
    overview: bool,
    row: String,
    i: int,
)
    requires
        !(saved.texts().contains(crate::follow::STAY_UNICODE@) && saved.texts().contains(
            crate::follow::STAY_FALLBACK@,
        )),
        0 <= i < follow_rows(saved).len(),
        row@ == follow_rows(saved)[i],
    ensures
        answered(saved, workspace_id, overview, Ok(PickerOutcome::Selected(row))) == (if i
            == saved.texts().len() {
            done()
        } else {
            following_activity(saved.texts()[i], workspace_id, overview)
        }),
{
    crate::follow::law_stay_row_is_distinct(saved.texts());
    if i < saved.texts().len() {
        assert(saved.texts()[i] == row@);
    }
}

/// A workspace is never asked to be assigned to no activity at all: without
/// activities there is no menu, and what a menu answers names one at least.
pub proof fn law_assignment_is_not_empty(
    follow: FollowMode,
    workspace: Option<u64>,
    reply: Reply,
    activities: Vec<Activity>,
    workspace_id: u64,
    success: bool,
    text: Seq<char>,
    select_all: Seq<char>,
    only_one: Seq<char>,
    picked: MultiPickerOutcome,
)
    requires
        asking_workspaces(follow, workspace, reply) == sending(
            RequestView::Workspaces,
            AfterReply::AssignWorkspaces { activities, follow, workspace },
        ),
        picked@ == multi_select::answered(
            success,
            text,
            names(activities@),
            select_all,
            only_one,
        ),
    ensures
        chosen(activities, workspace_id, follow, Ok(picked)).step matches StepView::Send {
            request,
            ..
        } ==> exists|listed: Seq<Seq<char>>|
            listed.len() > 0 && request == #[trigger] set_request(workspace_id, listed),
{
    multi_select::law_choice_is_not_empty(
        success,
        text,
        names(activities@),
        select_all,
        only_one,
    );
    match picked {
        MultiPickerOutcome::Selected(list) => {
            assert(chosen(activities, workspace_id, follow, Ok(picked)).step matches StepView::Send {
                request,
                ..
            } && request == set_request(workspace_id, texts(list@)));
        },
        _ => {},
    }
}

/// The workspace that is assigned is the one that was settled before the menu
/// opened, whichever has the focus by the time of the answer.
pub proof fn law_assigned_workspace_is_settled(
    activities: Vec<Activity>,
    follow: FollowMode,
    workspace: Option<u64>,
    reply: Reply,
)
    ensures
        offering(activities, follow, workspace, reply).step matches StepView::PickMany {
            then: AfterPickMany::Assign { workspace_id, .. },
            ..
        } ==> {
            &&& workspaces_in(reply) matches Ok(workspaces)
            &&& match workspace {
                Some(id) => workspace_id == id,
                None => focused(workspaces@) matches Some(w) && w.id == workspace_id,
            }
        },
{
    match workspaces_in(reply) {
        Ok(workspaces) => {
            match workspace {
                Some(id) => {
                    lemma_first_where(workspaces@, has_workspace_id(id));
                },
                None => {},
            }
        },
        Err(_) => {},
    }
}

} // verus!
