//! What holds of moving windows and workspaces: what is moved, where it goes, and
//! what is followed.

use crate::assign_workspace::{is_known, known_name, memberships};
use crate::cli::FollowMode;
use crate::error::{CauseView, CliErrorView, MalformedResponseSourceView};
use crate::flow::{AfterName, AfterPick, AfterPickMany, AfterReply, Destination, ProgressView, Saved,
    StepView};
use crate::follow::{following_activity, following_workspace, opening_overview, stay_row};
use crate::ipc::{ActionView, Activity, ActivityReferenceView, IpcError, NoOpReason, RequestView,
    Response, Workspace, WorkspaceReferenceView};
use crate::ipc_helpers::{active_index, names};
use crate::laws::{failure, fails_with, is_last_request, is_part_of,
    law_failed_round_trip_names_its_operation, lemma_handled, quotes_refusals, succeeded};
use crate::laws_of_lists::{is_the_active, lemma_the_active};
use crate::move_window::laws::{ids_distinct, law_marked_row_is_not_unmarked, law_new_workspace_row,
    law_special_rows_are_distinct, law_workspace_row_is_not_special};
use crate::move_window::rows::{annotated, has_unmarked_row, is_current_row, label, stage1_rows};
use crate::move_window::snapshot::{NOTHING_CAPTURED, focused, has_name, law_trailing_empty, lies_in, lying_in, named,
    trailing_empty};
use crate::move_window::{NOTHING_TO_MOVE_TO, already_there, candidates, confirmation,
    destination_new_row, destination_rows, has_workspace_id, moving, name_map, no_empty_workspace,
    no_workspaces, other_workspace};
use crate::order::{Ranked, lemma_ranked_placed, ranked};
use crate::picker::multi_select::MultiPickerOutcome;
use crate::picker::{NameOutcome, PickerOutcome};
use crate::resume::{picked_many, picked_one, replied};
use crate::search::{first_where, found, lemma_filter_places, lemma_first_where};
use crate::text::{debug_form, decimal, texts};
use vstd::prelude::*;
use vstd::string::*;

verus! {

// ---- What the compositor lists ---------------------------------------------

/// Whether the workspace at place `f` has the focus; should several have it, the
/// first.
pub open spec fn is_the_focused(workspaces: Seq<Workspace>, f: int) -> bool {
    &&& 0 <= f < workspaces.len()
    &&& workspaces[f].is_focused
    &&& forall|j: int| 0 <= j < f ==> !(#[trigger] workspaces[j]).is_focused
}

/// Whether the activity at place `k` is the one with the given name; should there
/// be several, the first.
pub open spec fn is_the_named(activities: Seq<Activity>, name: Seq<char>, k: int) -> bool {
    &&& 0 <= k < activities.len()
    &&& activities[k].name@ == name
    &&& forall|j: int| 0 <= j < k ==> (#[trigger] activities[j]).name@ != name
}

/// Whether the workspace at place `i` belongs to an activity and is on an output.
pub open spec fn is_there(
    workspaces: Seq<Workspace>,
    activity_id: u64,
    output: Seq<char>,
    i: int,
) -> bool {
    &&& 0 <= i < workspaces.len()
    &&& workspaces[i].activities@.contains(activity_id)
    &&& workspaces[i].output matches Some(o) && o@ == output
}

/// Whether the workspace at place `t` is where a window lands in an activity on an
/// output: it has no window itself, and none that has no window is further back.
pub open spec fn is_trailing_empty(
    workspaces: Seq<Workspace>,
    activity_id: u64,
    output: Seq<char>,
    t: int,
) -> bool {
    &&& is_there(workspaces, activity_id, output, t)
    &&& workspaces[t].active_window_id is None
    &&& forall|i: int| #[trigger]
        is_there(workspaces, activity_id, output, i) && workspaces[i].active_window_id is None ==> {
            ||| workspaces[i].idx < workspaces[t].idx
            ||| workspaces[i].idx == workspaces[t].idx && i <= t
        }
}

/// The focused workspace is the one that is looked up.
proof fn lemma_the_focused(workspaces: Seq<Workspace>)
    ensures
        match focused(workspaces) {
            Some(w) => exists|f: int| #[trigger] is_the_focused(workspaces, f) && workspaces[f] == w,
            None => forall|f: int| !#[trigger] is_the_focused(workspaces, f),
        },
        forall|f: int, g: int|
            #[trigger] is_the_focused(workspaces, f) && #[trigger] is_the_focused(workspaces, g)
                ==> f == g,
{
    let p = |w: Workspace| w.is_focused;
    lemma_first_where(workspaces, p);
    assert forall|f: int, g: int|
        #[trigger] is_the_focused(workspaces, f) && #[trigger] is_the_focused(
            workspaces,
            g,
        ) implies f == g by {
        if f < g {
            assert(!workspaces[f].is_focused);
        } else if g < f {
            assert(!workspaces[g].is_focused);
        }
    }
    match first_where(workspaces, p) {
        Some(k) => {
            assert forall|j: int| 0 <= j < k implies !(#[trigger] workspaces[j]).is_focused by {
                assert(!p(workspaces[j]));
            }
            assert(is_the_focused(workspaces, k));
        },
        None => {
            assert forall|f: int| !#[trigger] is_the_focused(workspaces, f) by {
                if 0 <= f < workspaces.len() {
                    assert(!p(workspaces[f]));
                }
            }
        },
    }
}

/// The activity with a name is the one that is looked up.
proof fn lemma_the_named(activities: Seq<Activity>, name: Seq<char>)
    ensures
        match named(activities, name) {
            Some(a) => exists|k: int| #[trigger]
                is_the_named(activities, name, k) && activities[k] == a,
            None => forall|k: int| !#[trigger] is_the_named(activities, name, k),
        },
        forall|k: int, h: int|
            #[trigger] is_the_named(activities, name, k) && #[trigger] is_the_named(
                activities,
                name,
                h,
            ) ==> k == h,
{
    let p = has_name(name);
    lemma_first_where(activities, p);
    assert forall|k: int, h: int|
        #[trigger] is_the_named(activities, name, k) && #[trigger] is_the_named(
            activities,
            name,
            h,
        ) implies k == h by {
        if k < h {
            assert(activities[k].name@ != name);
        } else if h < k {
            assert(activities[h].name@ != name);
        }
    }
    match first_where(activities, p) {
        Some(k) => {
            assert forall|j: int| 0 <= j < k implies (#[trigger] activities[j]).name@ != name by {
                assert(!p(activities[j]));
            }
            assert(is_the_named(activities, name, k));
        },
        None => {
            assert forall|k: int| !#[trigger] is_the_named(activities, name, k) by {
                if 0 <= k < activities.len() {
                    assert(!p(activities[k]));
                }
            }
        },
    }
}

/// The trailing empty workspace is the one that is looked up.
proof fn lemma_trailing_empty(workspaces: Seq<Workspace>, activity_id: u64, output: Seq<char>)
    ensures
        match trailing_empty(lying_in(workspaces, activity_id, output)) {
            Some(w) => exists|t: int| #[trigger]
                is_trailing_empty(workspaces, activity_id, output, t) && workspaces[t] == w,
            None => forall|i: int| #[trigger]
                is_there(workspaces, activity_id, output, i)
                    ==> workspaces[i].active_window_id is Some,
        },
        lying_in(workspaces, activity_id, output).len() == 0 <==> forall|i: int|
            !#[trigger] is_there(workspaces, activity_id, output, i),
    decreases workspaces.len(),
{
    reveal(Seq::filter);
    let there = lying_in(workspaces, activity_id, output);
    if workspaces.len() == 0 {
        assert(there.len() == 0);
    } else {
        let head = workspaces.drop_last();
        let last = workspaces.len() - 1;
        let w = workspaces[last];
        let before = lying_in(head, activity_id, output);
        lemma_trailing_empty(head, activity_id, output);
        assert forall|i: int| i != last implies #[trigger] is_there(
            workspaces,
            activity_id,
            output,
            i,
        ) == is_there(head, activity_id, output, i) by {
            if 0 <= i < last {
                assert(head[i] == workspaces[i]);
            }
        }
        if is_there(workspaces, activity_id, output, last) {
            assert(there == before.push(w));
            assert(there.drop_last() =~= before);
            assert(there.last() == w);
            match trailing_empty(before) {
                Some(b) => {
                    let t = choose|t: int| #[trigger]
                        is_trailing_empty(head, activity_id, output, t) && head[t] == b;
                    assert(workspaces[t] == head[t]);
                    if w.active_window_id is Some || b.idx > w.idx {
                        assert forall|i: int| #[trigger]
                            is_there(workspaces, activity_id, output, i)
                                && workspaces[i].active_window_id is None implies workspaces[i].idx
                            < workspaces[t].idx || (workspaces[i].idx == workspaces[t].idx && i
                            <= t) by {
                            if i != last {
                                assert(is_there(head, activity_id, output, i));
                                assert(head[i] == workspaces[i]);
                            }
                        }
                        assert(is_there(head, activity_id, output, t));
                        assert(is_trailing_empty(workspaces, activity_id, output, t));
                    } else {
                        assert forall|i: int| #[trigger]
                            is_there(workspaces, activity_id, output, i)
                                && workspaces[i].active_window_id is None implies workspaces[i].idx
                            < w.idx || (workspaces[i].idx == w.idx && i <= last) by {
                            if i != last {
                                assert(is_there(head, activity_id, output, i));
                                assert(head[i] == workspaces[i]);
                            }
                        }
                        assert(is_trailing_empty(workspaces, activity_id, output, last));
                    }
                },
                None => {
                    assert forall|i: int|
                        i != last && #[trigger] is_there(
                            workspaces,
                            activity_id,
                            output,
                            i,
                        ) implies workspaces[i].active_window_id is Some by {
                        assert(is_there(head, activity_id, output, i));
                        assert(head[i] == workspaces[i]);
                    }
                    if w.active_window_id is None {
                        assert(is_trailing_empty(workspaces, activity_id, output, last));
                    }
                },
            }
        } else {
            assert(there == before);
            match trailing_empty(before) {
                Some(b) => {
                    let t = choose|t: int| #[trigger]
                        is_trailing_empty(head, activity_id, output, t) && head[t] == b;
                    assert(workspaces[t] == head[t]);
                    assert(is_there(head, activity_id, output, t));
                    assert forall|i: int| #[trigger]
                        is_there(workspaces, activity_id, output, i)
                            && workspaces[i].active_window_id is None implies workspaces[i].idx
                        < workspaces[t].idx || (workspaces[i].idx == workspaces[t].idx && i
                        <= t) by {
                        assert(is_there(head, activity_id, output, i));
                        assert(head[i] == workspaces[i]);
                    }
                    assert(is_trailing_empty(workspaces, activity_id, output, t));
                },
                None => {
                    assert forall|i: int| #[trigger]
                        is_there(workspaces, activity_id, output, i) implies
                        workspaces[i].active_window_id is Some by {
                        assert(is_there(head, activity_id, output, i));
                        assert(head[i] == workspaces[i]);
                    }
                },
            }
            if before.len() == 0 {
                assert forall|i: int| !#[trigger] is_there(workspaces, activity_id, output, i) by {
                    assert(!is_there(head, activity_id, output, i));
                }
            } else {
                let i = choose|i: int| #[trigger] is_there(head, activity_id, output, i);
                assert(is_there(workspaces, activity_id, output, i));
            }
        }
    }
}

// ---- Moving a window -------------------------------------------------------

/// The window that a move has to name: the one given; else, where it is to be
/// followed, the one on the workspace with the focus; else none, so that the
/// compositor takes the one with the focus.
pub open spec fn window_meant(
    follow: FollowMode,
    window: Option<u64>,
    focused: Workspace,
) -> Option<u64> {
    match (window, follow) {
        (Some(id), _) => Some(id),
        (None, FollowMode::Off) => None,
        (None, _) => focused.active_window_id,
    }
}

/// Whether a window is now to be moved to the given workspace, as the window that
/// is meant, and without the focus. A line says so where a window was to be
/// followed and there is none. Once the compositor has confirmed the move, a line
/// says where the window went; where it was there already, a line says so of the
/// workspace that the compositor names.
pub open spec fn is_window_move(
    p: ProgressView,
    to: Workspace,
    activity_name: Seq<char>,
    follow: FollowMode,
    window: Option<u64>,
    focused: Workspace,
    workspaces: Seq<Workspace>,
) -> bool {
    &&& p.notes == (if follow != FollowMode::Off && window_meant(
        follow,
        window,
        focused,
    ) is None {
        seq![NOTHING_CAPTURED@]
    } else {
        Seq::empty()
    })
    &&& p.step matches StepView::Send { request, then } && {
        &&& request == RequestView::Action(
            ActionView::MoveWindowToWorkspace {
                window_id: window_meant(follow, window, focused),
                reference: WorkspaceReferenceView::Id(to.id),
                focus: false,
            },
        )
        &&& is_part_of(then, "moving window to workspace"@)
        &&& quotes_refusals(then)
        &&& forall|shown: Seq<char>|
            #![trigger replied(then, Ok(Response::Handled), shown)]
            {
                let q = replied(then, Ok(Response::Handled), shown);
                succeeded(q) && q.notes == seq![
                    "niri-activities: moved focused window to workspace "@ + decimal(to.id as nat)
                        + " in activity '"@ + activity_name + "'"@,
                ]
            }
        &&& forall|shown: Seq<char>, reported: u64|
            #![trigger replied(then, Ok(Response::NoOp(NoOpReason::AlreadyOnTarget { workspace_id: reported })), shown)]
            {
                let q = replied(
                    then,
                    Ok(Response::NoOp(NoOpReason::AlreadyOnTarget { workspace_id: reported })),
                    shown,
                );
                let line = already_there(reported, workspaces);
                succeeded(q) && q.notes == (if reported == to.id {
                    seq![line]
                } else {
                    seq![
                        "niri-activities: warning: compositor reported AlreadyOnTarget for ws "@
                            + decimal(reported as nat) + " but we dispatched against ws "@
                            + decimal(to.id as nat),
                        line,
                    ]
                })
            }
        &&& forall|shown: Seq<char>, reason: String|
            #![trigger replied(then, Ok(Response::NoOp(NoOpReason::Unknown { shown: reason })), shown)]
            is_malformed(
                replied(then, Ok(Response::NoOp(NoOpReason::Unknown { shown: reason })), shown),
                "unexpected NoOpReason variant: "@ + reason@,
            )
    }
}

/// Whether a subcommand is over because a reply, or the answer of a menu program,
/// is not what it has to be.
pub open spec fn is_malformed(p: ProgressView, message: Seq<char>) -> bool {
    fails_with(
        p,
        CliErrorView::MalformedResponse(MalformedResponseSourceView::Server(message)),
    )
}

/// Whether a named move comes to what it has to: the window goes to the trailing
/// empty workspace of the activity on the output with the focus. Where there is
/// none, nothing is asked for and a line says why: the activity has no workspace
/// there, or none that is empty.
pub open spec fn lands(
    p: ProgressView,
    activity_id: u64,
    activity_name: Seq<char>,
    follow: FollowMode,
    window: Option<u64>,
    workspaces: Seq<Workspace>,
) -> bool {
    &&& (forall|f: int| !#[trigger] is_the_focused(workspaces, f))
        ==> is_malformed(p, "no focused workspace"@)
    &&& forall|f: int| #[trigger]
        is_the_focused(workspaces, f) ==> match workspaces[f].output {
            None => is_malformed(p, "focused workspace has no output"@),
            Some(output) => {
                &&& forall|t: int| #[trigger]
                    is_trailing_empty(workspaces, activity_id, output@, t) ==> is_window_move(
                        p,
                        workspaces[t],
                        activity_name,
                        follow,
                        window,
                        workspaces[f],
                        workspaces,
                    )
                &&& (forall|t: int| !#[trigger] is_trailing_empty(workspaces, activity_id, output@, t))
                    ==> succeeded(p) && p.notes == seq![
                    "niri-activities: activity '"@ + activity_name + (if exists|i: int|
                        is_there(workspaces, activity_id, output@, i) {
                        "' has no empty workspaces on the focused output; create one or pick an existing workspace via `move-window` (no arg)"@
                    } else {
                        "' has no workspaces on the focused output; nothing to move window to"@
                    }),
                ]
            },
        }
}

/// Moving a window to a named activity sends it to the trailing empty workspace of
/// that activity on the output with the focus, and to no other. An activity that
/// there is not is reported, and the workspaces are not asked for.
pub proof fn law_named_window_move(
    activity_name: String,
    follow: FollowMode,
    window: Option<u64>,
    activities: Vec<Activity>,
    workspaces: Vec<Workspace>,
    shown: Seq<char>,
)
    ensures
        ({
            let p = replied(
                AfterReply::MoveWindowActivities { activity_name, follow, window },
                Ok(Response::Activities(activities)),
                shown,
            );
            &&& (forall|k: int| !#[trigger] is_the_named(activities@, activity_name@, k))
                ==> fails_with(p, CliErrorView::ActivityNotFound(activity_name@))
            &&& forall|k: int| #[trigger]
                is_the_named(activities@, activity_name@, k) ==> (p.step matches StepView::Send {
                    request: RequestView::Workspaces,
                    then,
                } && lands(
                    replied(then, Ok(Response::Workspaces(workspaces)), shown),
                    activities@[k].id,
                    activity_name@,
                    follow,
                    window,
                    workspaces@,
                ))
        }),
{
    lemma_the_named(activities@, activity_name@);
    match named(activities@, activity_name@) {
        None => {},
        Some(a) => {
            let k = choose|k: int| #[trigger]
                is_the_named(activities@, activity_name@, k) && activities@[k] == a;
            lemma_lands(a.id, activity_name, follow, window, workspaces, shown);
        },
    }
}

proof fn lemma_lands(
    activity_id: u64,
    activity_name: String,
    follow: FollowMode,
    window: Option<u64>,
    workspaces: Vec<Workspace>,
    shown: Seq<char>,
)
    ensures
        lands(
            replied(
                AfterReply::MoveWindowWorkspaces { activity_id, activity_name, follow, window },
                Ok(Response::Workspaces(workspaces)),
                shown,
            ),
            activity_id,
            activity_name@,
            follow,
            window,
            workspaces@,
        ),
{
    let all = workspaces@;
    let p = replied(
        AfterReply::MoveWindowWorkspaces { activity_id, activity_name, follow, window },
        Ok(Response::Workspaces(workspaces)),
        shown,
    );
    lemma_the_focused(all);
    match focused(all) {
        None => {},
        Some(w) => {
            let f = choose|f: int| #[trigger] is_the_focused(all, f) && all[f] == w;
            match w.output {
                None => {},
                Some(output) => {
                    lemma_trailing_empty(all, activity_id, output@);
                    match trailing_empty(lying_in(all, activity_id, output@)) {
                        None => {
                            assert forall|t: int|
                                !#[trigger] is_trailing_empty(all, activity_id, output@, t) by {
                                assert(is_there(all, activity_id, output@, t)
                                    ==> all[t].active_window_id is Some);
                            }
                            assert(p.notes =~= seq![
                                if exists|i: int| is_there(all, activity_id, output@, i) {
                                    no_empty_workspace(activity_name@)
                                } else {
                                    no_workspaces(activity_name@)
                                },
                            ]);
                        },
                        Some(to) => {
                            let t = choose|t: int| #[trigger]
                                is_trailing_empty(all, activity_id, output@, t) && all[t] == to;
                            assert(is_there(all, activity_id, output@, t));
                            lemma_window_move(
                                p,
                                to,
                                activity_name,
                                follow,
                                window,
                                workspaces,
                                f,
                            );
                            assert forall|s: int| #[trigger]
                                is_trailing_empty(all, activity_id, output@, s) implies s == t by {
                                assert(is_there(all, activity_id, output@, s));
                            }
                        },
                    }
                },
            }
        },
    }
}

proof fn lemma_window_move(
    p: ProgressView,
    to: Workspace,
    activity_name: String,
    follow: FollowMode,
    window: Option<u64>,
    workspaces: Vec<Workspace>,
    f: int,
)
    requires
        p == moving(to.id, activity_name, workspaces, follow, window),
        is_the_focused(workspaces@, f),
    ensures
        is_window_move(
            p,
            to,
            activity_name@,
            follow,
            window,
            workspaces@[f],
            workspaces@,
        ),
{
    lemma_the_focused(workspaces@);
    let w = focused(workspaces@)->0;
    assert(w == workspaces@[f]);
    let then = p.step->Send_then;
    assert forall|shown: Seq<char>, error: IpcError|
        #![trigger replied(then, Err(error), shown)]
        {
            failure(replied(then, Err(error), shown)) matches Some(f) && f.contexts == seq![
                "moving window to workspace"@,
            ]
        } by {
        law_failed_round_trip_names_its_operation(then, error, shown);
    }
    assert forall|shown: Seq<char>|
        #![trigger replied(then, Ok(Response::Handled), shown)]
        {
            let q = replied(then, Ok(Response::Handled), shown);
            succeeded(q) && q.notes == seq![confirmation(to.id, activity_name@)]
        } by {
        let q = replied(then, Ok(Response::Handled), shown);
        assert(q.notes =~= seq![confirmation(to.id, activity_name@)]);
    }
    assert forall|shown: Seq<char>, reported: u64|
        #![trigger replied(then, Ok(Response::NoOp(NoOpReason::AlreadyOnTarget { workspace_id: reported })), shown)]
        {
            let q = replied(
                then,
                Ok(Response::NoOp(NoOpReason::AlreadyOnTarget { workspace_id: reported })),
                shown,
            );
            let line = already_there(reported, workspaces@);
            succeeded(q) && q.notes == (if reported == to.id {
                seq![line]
            } else {
                seq![other_workspace(reported, to.id), line]
            })
        } by {
        let q = replied(
            then,
            Ok(Response::NoOp(NoOpReason::AlreadyOnTarget { workspace_id: reported })),
            shown,
        );
        let line = already_there(reported, workspaces@);
        assert(q.notes =~= (if reported == to.id {
            seq![line]
        } else {
            seq![other_workspace(reported, to.id), line]
        }));
    }
    assert(p.notes =~= (if follow != FollowMode::Off && window_meant(follow, window, w) is None {
        seq![NOTHING_CAPTURED@]
    } else {
        Seq::empty()
    }));
}

/// That there is nothing to move is said of the workspace that the compositor names:
/// by its label where it is listed, should there be several the first, and by its
/// id otherwise.
pub proof fn law_nothing_to_move_names_the_workspace(workspaces: Seq<Workspace>, id: u64)
    ensures
        ({
            let before = "niri-activities: focused window is already in workspace "@;
            &&& forall|i: int| #[trigger]
                is_the_assigned(workspaces, Some(id), i) ==> already_there(id, workspaces) == before
                    + label(workspaces[i]) + "; nothing to move"@
            &&& (forall|i: int| !#[trigger] is_the_assigned(workspaces, Some(id), i))
                ==> already_there(id, workspaces) == before + ("id "@ + decimal(id as nat))
                + "; nothing to move"@
        }),
{
    lemma_the_assigned(workspaces, id);
}

// ---- The menu of workspaces ------------------------------------------------

/// Whether the workspaces at the given places stand in the order of a menu: those
/// of the active activity first; then by position; then by id. No place comes
/// twice.
pub open spec fn in_menu_order(workspaces: Seq<Workspace>, places: Seq<int>) -> bool {
    forall|i: int, j: int|
        #![trigger places[i], places[j]]
        0 <= i < j < places.len() ==> {
            let a = workspaces[places[i]];
            let b = workspaces[places[j]];
            if a.is_in_active_activity != b.is_in_active_activity {
                a.is_in_active_activity
            } else if a.idx != b.idx {
                a.idx < b.idx
            } else {
                a.id < b.id || (a.id == b.id && places[i] < places[j])
            }
        }
}

/// Whether the rows of a menu are those for the workspaces of an activity on an
/// output: one for each workspace, at the given places, in the order of a menu and
/// with a mark on the one that has the focus, and then one for a new workspace
/// where that is on offer.
pub open spec fn is_workspace_menu(
    items: Seq<Seq<char>>,
    activities: Seq<Activity>,
    workspaces: Seq<Workspace>,
    to: Destination,
    output: Seq<char>,
    focused: Workspace,
    places: Seq<int>,
) -> bool {
    &&& forall|i: int| #[trigger]
        places.contains(i) <==> is_there(workspaces, to.activity_id, output, i)
    &&& in_menu_order(workspaces, places)
    &&& forall|i: int|
        0 <= i < places.len() ==> #[trigger] items[i] == annotated(
            workspaces[places[i]],
            to.activity_id,
            workspaces[places[i]].id == focused.id,
            name_map(activities),
        )
    &&& if to.with_new {
        items.len() == places.len() + 1 && items.last() == "« New workspace »"@
    } else {
        items.len() == places.len() > 0
    }
}

/// The workspaces to choose from stand at places that are so ordered.
proof fn lemma_candidates(workspaces: Seq<Workspace>, activity_id: u64, output: Seq<char>) -> (places:
    Seq<int>)
    ensures
        forall|i: int| #[trigger]
            places.contains(i) <==> is_there(workspaces, activity_id, output, i),
        in_menu_order(workspaces, places),
        places.len() == candidates(workspaces, activity_id, output).len(),
        forall|i: int|
            0 <= i < places.len() ==> 0 <= #[trigger] places[i] < workspaces.len() && candidates(
                workspaces,
                activity_id,
                output,
            )[i] == workspaces[places[i]],
{
    let p = |w: Workspace| lies_in(w, activity_id, output);
    let there = workspaces.filter(p);
    let outer = lemma_filter_places(workspaces, p);
    let inner = lemma_ranked_placed(there);
    let places = inner.map_values(|k: int| outer[k]);
    assert forall|i: int| 0 <= i < places.len() implies 0 <= #[trigger] places[i]
        < workspaces.len() && places[i] == outer[inner[i]] && ranked(there)[i]
        == workspaces[places[i]] by {}
    assert forall|i: int| #[trigger] places.contains(i) <==> is_there(
        workspaces,
        activity_id,
        output,
        i,
    ) by {
        if places.contains(i) {
            let h = choose|h: int| 0 <= h < places.len() && places[h] == i;
            assert(outer[inner[h]] == i);
            assert(outer.contains(i));
            assert(p(workspaces[i]));
        }
        if is_there(workspaces, activity_id, output, i) {
            assert(p(workspaces[i]));
            assert(outer.contains(i));
            let k = choose|k: int| 0 <= k < outer.len() && outer[k] == i;
            assert(inner.contains(k));
            let h = choose|h: int| 0 <= h < inner.len() && inner[h] == k;
            assert(places[h] == i);
        }
    }
    assert forall|i: int, j: int|
        #![trigger places[i], places[j]]
        0 <= i < j < places.len() implies {
        let a = workspaces[places[i]];
        let b = workspaces[places[j]];
        if a.is_in_active_activity != b.is_in_active_activity {
            a.is_in_active_activity
        } else if a.idx != b.idx {
            a.idx < b.idx
        } else {
            a.id < b.id || (a.id == b.id && places[i] < places[j])
        }
    } by {
        assert(there[inner[i]] == workspaces[places[i]]);
        assert(there[inner[j]] == workspaces[places[j]]);
        assert(there[inner[i]].at_most(&there[inner[j]]));
        if inner[i] < inner[j] {
            assert(outer[inner[i]] < outer[inner[j]]);
        }
    }
    places
}

/// The menu of workspaces lists those of the destination on the output with the
/// focus, each once and no other, and a new one where that is on offer. Without
/// any workspace and without a new one on offer there is no menu.
pub proof fn law_workspace_menu(
    activities: Vec<Activity>,
    to: Destination,
    workspaces: Vec<Workspace>,
    shown: Seq<char>,
)
    ensures
        ({
            let p = replied(
                AfterReply::MoveWindowStage2 { activities, to },
                Ok(Response::Workspaces(workspaces)),
                shown,
            );
            &&& (forall|f: int| !#[trigger] is_the_focused(workspaces@, f))
                ==> is_malformed(p, "no focused workspace"@)
            &&& forall|f: int| #[trigger]
                is_the_focused(workspaces@, f) ==> match workspaces@[f].output {
                    None => is_malformed(p, "focused workspace has no output"@),
                    Some(output) => if to.with_new || exists|i: int| #[trigger]
                        is_there(workspaces@, to.activity_id, output@, i) {
                        p.step matches StepView::Pick { prompt, items, then } && prompt
                            == "Move window to workspace:"@ && then
                            == (AfterPick::MoveWindowStage2 { activities, workspaces, to })
                            && exists|places: Seq<int>| #[trigger]
                            is_workspace_menu(
                                items,
                                activities@,
                                workspaces@,
                                to,
                                output@,
                                workspaces@[f],
                                places,
                            )
                    } else {
                        succeeded(p) && p.notes == seq![
                            "niri-activities: activity '"@ + to.activity_name@
                                + "' has no workspaces on the focused output; nothing to move window to"@,
                        ]
                    },
                }
        }),
{
    let all = workspaces@;
    let p = replied(
        AfterReply::MoveWindowStage2 { activities, to },
        Ok(Response::Workspaces(workspaces)),
        shown,
    );
    lemma_the_focused(all);
    match focused(all) {
        None => {},
        Some(w) => {
            let f = choose|f: int| #[trigger] is_the_focused(all, f) && all[f] == w;
            match w.output {
                None => {},
                Some(output) => {
                    let places = lemma_candidates(all, to.activity_id, output@);
                    let there = candidates(all, to.activity_id, output@);
                    law_new_workspace_row(there);
                    let rows = destination_rows(activities@, all, to, output@);
                    assert(rows.len() == places.len());
                    if to.with_new {
                        let items = p.step->Pick_items;
                        assert forall|i: int| 0 <= i < places.len() implies #[trigger] items[i]
                            == annotated(
                            all[places[i]],
                            to.activity_id,
                            all[places[i]].id == w.id,
                            name_map(activities@),
                        ) by {
                            assert(items[i] == rows[i]);
                        }
                        assert(is_workspace_menu(
                            items,
                            activities@,
                            all,
                            to,
                            output@,
                            w,
                            places,
                        ));
                    } else if rows.len() > 0 {
                        assert(places.contains(places[0]));
                        assert(is_workspace_menu(
                            p.step->Pick_items,
                            activities@,
                            all,
                            to,
                            output@,
                            w,
                            places,
                        ));
                    } else {
                        assert forall|i: int|
                            !#[trigger] is_there(all, to.activity_id, output@, i) by {
                            assert(!places.contains(i));
                        }
                        assert(p.notes =~= seq![no_workspaces(to.activity_name@)]);
                    }
                },
            }
        },
    }
}

/// Whether a workspace comes before another in a menu: one of the active activity
/// before any other; then by position; then by id.
pub open spec fn comes_before(a: Workspace, b: Workspace) -> bool {
    if a.is_in_active_activity != b.is_in_active_activity {
        a.is_in_active_activity
    } else if a.idx != b.idx {
        a.idx < b.idx
    } else {
        a.id < b.id
    }
}

/// No workspace without a window comes behind the trailing empty one that is not of
/// a lower position.
proof fn lemma_trailing_is_last(workspaces: Seq<Workspace>)
    ensures
        trailing_empty(workspaces) matches Some(w) ==> exists|h: int|
            #![trigger workspaces[h]]
            0 <= h < workspaces.len() && workspaces[h] == w && forall|i: int|
                h < i < workspaces.len() && (#[trigger] workspaces[i]).active_window_id is None
                    ==> workspaces[i].idx < w.idx,
    decreases workspaces.len(),
{
    if workspaces.len() > 0 {
        let head = workspaces.drop_last();
        let last = workspaces.len() - 1;
        lemma_trailing_is_last(head);
        match trailing_empty(workspaces) {
            Some(w) => {
                let l = workspaces[last];
                match trailing_empty(head) {
                    Some(b) if l.active_window_id is Some || b.idx > l.idx => {
                        let h = choose|h: int|
                            #![trigger head[h]]
                            0 <= h < head.len() && head[h] == b && forall|i: int|
                                h < i < head.len() && (#[trigger] head[i]).active_window_id is None
                                    ==> head[i].idx < b.idx;
                        assert(workspaces[h] == w);
                        assert forall|i: int|
                            h < i < workspaces.len() && (
                            #[trigger] workspaces[i]).active_window_id is None implies
                            workspaces[i].idx < w.idx by {
                            if i < last {
                                assert(head[i] == workspaces[i]);
                            }
                        }
                    },
                    _ => {
                        assert(workspaces[last] == w);
                    },
                }
            },
            None => {},
        }
    }
}

/// The row that the menu has for the workspace at place `i`.
pub open spec fn row_at(
    activities: Seq<Activity>,
    workspaces: Seq<Workspace>,
    to: Destination,
    focused: Workspace,
    i: int,
) -> Seq<char> {
    annotated(
        workspaces[i],
        to.activity_id,
        workspaces[i].id == focused.id,
        name_map(activities),
    )
}

/// Whether a chosen row comes to a move to the workspace at place `i`.
pub open spec fn is_move_to(
    p: ProgressView,
    workspaces: Seq<Workspace>,
    to: Destination,
    focused: Workspace,
    i: int,
) -> bool {
    is_window_move(
        p,
        workspaces[i],
        to.activity_name@,
        to.follow,
        to.window,
        focused,
        workspaces,
    )
}

/// Choosing a row of the menu of workspaces moves the window to a workspace that
/// the row was made for, should there be several to the first in the menu. The row of the workspace with the focus moves nothing and
/// says so. The row for a new workspace moves the window to an empty workspace of
/// the destination that none is further back than, and among several of those to
/// the last in the menu. Any other answer is refused.
pub proof fn law_workspace_choice(
    activities: Vec<Activity>,
    workspaces: Vec<Workspace>,
    to: Destination,
    row: String,
    f: int,
    output: Seq<char>,
)
    requires
        ids_distinct(workspaces@),
        is_the_focused(workspaces@, f),
        workspaces@[f].output matches Some(o) && o@ == output,
    ensures
        ({
            let all = workspaces@;
            let w = all[f];
            let p = picked_one(
                AfterPick::MoveWindowStage2 { activities, workspaces, to },
                Ok(PickerOutcome::Selected(row)),
            );
            if row@ == "« New workspace »"@ && to.with_new {
                if exists|i: int| #[trigger]
                    is_there(all, to.activity_id, output, i) && all[i].active_window_id is None {
                    exists|t: int| #[trigger]
                        is_there(all, to.activity_id, output, t) && all[t].active_window_id is None
                            && is_move_to(p, all, to, w, t) && forall|i: int| #[trigger]
                            is_there(all, to.activity_id, output, i)
                                && all[i].active_window_id is None ==> all[i].idx < all[t].idx || (
                            all[i].idx == all[t].idx && !comes_before(all[t], all[i]))
                } else {
                    is_malformed(p, "trailing-empty workspace expected for active activity"@)
                }
            } else if exists|i: int| #[trigger]
                is_there(all, to.activity_id, output, i) && row@ == row_at(activities@, all, to, w, i) {
                exists|i: int| #[trigger]
                    is_there(all, to.activity_id, output, i) && row@ == row_at(
                        activities@,
                        all,
                        to,
                        w,
                        i,
                    ) && (if all[i].id == w.id {
                        succeeded(p) && p.notes == seq![already_there(w.id, all)]
                    } else {
                        is_move_to(p, all, to, w, i)
                    }) && forall|j: int| #[trigger]
                        is_there(all, to.activity_id, output, j) && row@ == row_at(
                            activities@,
                            all,
                            to,
                            w,
                            j,
                        ) ==> !comes_before(all[j], all[i])
            } else {
                is_malformed(
                    p,
                    if row@ == "« New workspace »"@ {
                        "stage-2 literal-only path produced new-workspace sentinel"@
                    } else {
                        "stage-2 picker returned label not in items: "@ + debug_form(row@)
                    },
                )
            }
        }),
{
    let all = workspaces@;
    let w = all[f];
    let p = picked_one(
        AfterPick::MoveWindowStage2 { activities, workspaces, to },
        Ok(PickerOutcome::Selected(row)),
    );
    let known = name_map(activities@);
    let places = lemma_candidates(all, to.activity_id, output);
    let there = candidates(all, to.activity_id, output);
    let special = "« New workspace »"@;
    lemma_the_focused(all);
    assert(focused(all) == Some(w));
    law_new_workspace_row(there);
    let rows = destination_rows(activities@, all, to, output);
    assert(rows.len() == there.len());
    assert forall|i: int| 0 <= i < rows.len() implies #[trigger] rows[i] != special by {
        law_workspace_row_is_not_special(
            there[i],
            to.activity_id,
            there[i].id == w.id,
            known,
            Seq::empty(),
        );
    }
    assert(destination_new_row(activities@, all, to, output) == special);
    if row@ == special {
        if to.with_new {
            law_trailing_empty(there);
            match trailing_empty(there) {
                None => {
                    assert forall|i: int| #[trigger]
                        is_there(all, to.activity_id, output, i) implies
                        all[i].active_window_id is Some by {
                        assert(places.contains(i));
                        let h = choose|h: int| 0 <= h < places.len() && places[h] == i;
                        assert(there[h] == all[i]);
                    }
                },
                Some(x) => {
                    lemma_trailing_is_last(there);
                    let h = choose|h: int|
                        #![trigger there[h]]
                        0 <= h < there.len() && there[h] == x && forall|i: int|
                            h < i < there.len() && (#[trigger] there[i]).active_window_id is None
                                ==> there[i].idx < x.idx;
                    let t = places[h];
                    assert(places.contains(t));
                    assert(is_there(all, to.activity_id, output, t));
                    lemma_window_move(
                        p,
                        x,
                        to.activity_name,
                        to.follow,
                        to.window,
                        workspaces,
                        f,
                    );
                    assert forall|i: int| #[trigger]
                        is_there(all, to.activity_id, output, i)
                            && all[i].active_window_id is None implies all[i].idx < all[t].idx || (
                    all[i].idx == all[t].idx && !comes_before(all[t], all[i])) by {
                        assert(places.contains(i));
                        let g = choose|g: int| 0 <= g < places.len() && places[g] == i;
                        assert(there[g] == all[i]);
                        if g < h {
                            assert(places[g] == i && places[h] == t);
                        }
                    }
                },
            }
        } else {
            assert forall|i: int| #[trigger]
                is_there(all, to.activity_id, output, i) implies row@ != row_at(
                activities@,
                all,
                to,
                w,
                i,
            ) by {
                assert(places.contains(i));
                let h = choose|h: int| 0 <= h < places.len() && places[h] == i;
                assert(there[h] == all[i]);
                assert(rows[h] == row_at(activities@, all, to, w, i));
            }
        }
    } else {
        let at_focus = |v: Workspace| v.id == w.id;
        lemma_first_where(there, at_focus);
        let unmarked = has_unmarked_row(row@, Some(w.id), to.activity_id, known);
        lemma_first_where(there, unmarked);
        if is_current_row(row@, there, Some(w.id), to.activity_id, known) {
            let h = first_where(there, at_focus)->0;
            let i = places[h];
            assert(places.contains(i));
            assert(is_there(all, to.activity_id, output, i));
            assert(row@ == row_at(activities@, all, to, w, i));
            assert(p.notes =~= seq![already_there(w.id, all)]);
            assert forall|j: int| #[trigger]
                is_there(all, to.activity_id, output, j) && row@ == row_at(
                    activities@,
                    all,
                    to,
                    w,
                    j,
                ) implies !comes_before(all[j], all[i]) by {
                if all[j].id != w.id {
                    law_marked_row_is_not_unmarked(all[i], all[j], to.activity_id, known);
                } else {
                    assert(all[j] == all[f] && all[i] == all[f]);
                }
            }
        } else {
            match first_where(there, unmarked) {
                Some(h) => {
                    let i = places[h];
                    assert(places.contains(i));
                    assert(is_there(all, to.activity_id, output, i));
                    assert(row@ == row_at(activities@, all, to, w, i));
                    assert forall|j: int| #[trigger]
                        is_there(all, to.activity_id, output, j) && row@ == row_at(
                            activities@,
                            all,
                            to,
                            w,
                            j,
                        ) implies !comes_before(all[j], all[i]) by {
                        assert(places.contains(j));
                        let g = choose|g: int| 0 <= g < places.len() && places[g] == j;
                        assert(there[g] == all[j]);
                        if all[j].id == w.id {
                            law_marked_row_is_not_unmarked(all[j], all[i], to.activity_id, known);
                        } else {
                            assert(unmarked(there[g]));
                            assert(h <= g);
                            if h < g {
                                assert(places[h] == i && places[g] == j);
                            }
                        }
                    }
                    lemma_window_move(
                        p,
                        there[h],
                        to.activity_name,
                        to.follow,
                        to.window,
                        workspaces,
                        f,
                    );
                },
                None => {
                    assert forall|i: int| #[trigger]
                        is_there(all, to.activity_id, output, i) implies row@ != row_at(
                        activities@,
                        all,
                        to,
                        w,
                        i,
                    ) by {
                        assert(places.contains(i));
                        let h = choose|h: int| 0 <= h < places.len() && places[h] == i;
                        assert(there[h] == all[i]);
                        assert(!unmarked(there[h]));
                        if all[i].id == w.id {
                            assert(at_focus(there[h]));
                            let g = first_where(there, at_focus)->0;
                            assert(places.contains(places[g]));
                            assert(all[places[g]].id == w.id);
                            assert(all[places[g]] == all[f] && all[i] == all[f]);
                        }
                    }
                },
            }
        }
    }
}

// ---- Choosing the activity of a window -------------------------------------

/// Whether the workspaces are now asked for, to move the window to one of the
/// activity at place `k`. A new workspace is on offer in the active activity only.
pub open spec fn heads_for(
    p: ProgressView,
    activities: Vec<Activity>,
    k: int,
    follow: FollowMode,
    window: Option<u64>,
) -> bool {
    p.step matches StepView::Send {
        request: RequestView::Workspaces,
        then: AfterReply::MoveWindowStage2 { activities: listed, to },
    } && {
        &&& listed == activities
        &&& to.activity_id == activities@[k].id
        &&& to.activity_name@ == activities@[k].name@
        &&& to.with_new == activities@[k].is_active
        &&& to.follow == follow
        &&& to.window == window
    }
}

/// Moving a window within the active activity goes on with that activity.
pub proof fn law_here_is_the_active_activity(
    follow: FollowMode,
    window: Option<u64>,
    activities: Vec<Activity>,
    shown: Seq<char>,
)
    ensures
        ({
            let p = replied(
                AfterReply::MoveWindowHereActivities { follow, window },
                Ok(Response::Activities(activities)),
                shown,
            );
            &&& (forall|k: int| !#[trigger] is_the_active(activities@, k))
                ==> is_malformed(p, "no active activity"@)
            &&& forall|k: int| #[trigger]
                is_the_active(activities@, k) ==> heads_for(p, activities, k, follow, window)
        }),
{
    lemma_the_active(activities@);
    match active_index(activities@) {
        Some(k) => {
            assert(is_the_active(activities@, k));
        },
        None => {},
    }
}

/// The menu of activities lists all of them, between a row for the active one and
/// a row for a new one, which read like none of them and not like each other.
/// Choosing the first row goes on with the active activity; the last asks for the
/// name of a new one; any other goes on with the activity of that name. Any other
/// answer is refused.
pub proof fn law_activity_menu_and_choice(
    follow: FollowMode,
    window: Option<u64>,
    activities: Vec<Activity>,
    row: String,
    shown: Seq<char>,
)
    ensures
        ({
            let p = replied(
                AfterReply::MoveWindowPickerActivities { follow, window },
                Ok(Response::Activities(activities)),
                shown,
            );
            let listed = activities@;
            if listed.len() == 0 {
                succeeded(p) && p.notes == seq![NOTHING_TO_MOVE_TO@]
            } else {
                p.step matches StepView::Pick { prompt, items, then } && {
                    let q = picked_one(then, Ok(PickerOutcome::Selected(row)));
                    &&& prompt == "Move window to activity:"@
                    &&& items.len() == listed.len() + 2
                    &&& items[0] != items.last()
                    &&& forall|j: int|
                        0 <= j < listed.len() ==> (#[trigger] listed[j]).name@ == items[j + 1]
                            && items[j + 1] != items[0] && items[j + 1] != items.last()
                    &&& if row@ == items[0] {
                        &&& (forall|k: int| !#[trigger] is_the_active(listed, k))
                            ==> is_malformed(q, "no active activity"@)
                        &&& forall|k: int| #[trigger]
                            is_the_active(listed, k) ==> heads_for(q, activities, k, follow, window)
                    } else if row@ == items.last() {
                        q.step matches StepView::PromptName {
                            prompt: asked,
                            then: AfterName::MoveWindowNewActivity { follow: mode, window: id },
                        } && asked == "new activity name:"@ && mode == follow && id == window
                    } else {
                        &&& (forall|k: int| !#[trigger] is_the_named(listed, row@, k))
                            ==> is_malformed(
                            q,
                            "stage-1 picker returned row not in items: "@ + debug_form(row@),
                        )
                        &&& forall|k: int| #[trigger]
                            is_the_named(listed, row@, k) ==> heads_for(
                                q,
                                activities,
                                k,
                                follow,
                                window,
                            )
                    }
                }
            }
        }),
{
    let listed = activities@;
    let all = names(listed);
    let p = replied(
        AfterReply::MoveWindowPickerActivities { follow, window },
        Ok(Response::Activities(activities)),
        shown,
    );
    law_special_rows_are_distinct(all);
    lemma_the_active(listed);
    lemma_the_named(listed, row@);
    match active_index(listed) {
        Some(k) => {
            assert(is_the_active(listed, k));
        },
        None => {},
    }
    if listed.len() > 0 {
        let items = p.step->Pick_items;
        assert(items == stage1_rows(listed));
        assert forall|j: int| 0 <= j < listed.len() implies (#[trigger] listed[j]).name@ == items[j
            + 1] && items[j + 1] != items[0] && items[j + 1] != items.last() by {
            assert(all[j] == listed[j].name@);
            assert(all.contains(all[j]));
        }
    }
}

/// A window goes to a new activity once that is created under the name that was
/// typed: the compositor is asked for its id, and the window then goes to one of
/// its workspaces. Without a name nothing is created.
pub proof fn law_new_activity_for_a_window(
    follow: FollowMode,
    window: Option<u64>,
    name: String,
    activities: Vec<Activity>,
    shown: Seq<char>,
)
    ensures
        ({
            let at = AfterName::MoveWindowNewActivity { follow, window };
            let p = crate::resume::named(at, Ok(NameOutcome::Typed(name)));
            &&& p.step matches StepView::Send { request, then } && request == RequestView::Action(
                ActionView::CreateActivity { name: name@ },
            ) && is_part_of(then, "creating activity from move-window picker"@) && {
                let q = replied(then, Ok(Response::Handled), shown);
                q.step matches StepView::Send { request: RequestView::Activities, then: next } && {
                    let r = replied(next, Ok(Response::Activities(activities)), shown);
                    &&& (forall|k: int| !#[trigger] is_the_named(activities@, name@, k))
                        ==> is_malformed(
                        r,
                        "newly-created activity not present in post-create Activities snapshot"@,
                    )
                    &&& forall|k: int| #[trigger]
                        is_the_named(activities@, name@, k) ==> r.scope == seq![
                            "dispatching stage 2 against newly-created activity"@,
                        ] && heads_for(r, activities, k, follow, window)
                }
            }
            &&& failure(crate::resume::named(at, Ok(NameOutcome::Unnamed))) matches Some(f)
                && f.cause matches CauseView::Typed(CliErrorView::Usage(said)) && said
                == "new activity name must not be empty"@
        }),
{
    lemma_the_named(activities@, name@);
    let at = AfterName::MoveWindowNewActivity { follow, window };
    let then = crate::resume::named(at, Ok(NameOutcome::Typed(name))).step->Send_then;
    let next = replied(then, Ok(Response::Handled), shown).step->Send_then;
    if exists|k: int| is_the_named(activities@, name@, k) {
        assert(replied(next, Ok(Response::Activities(activities)), shown).scope =~= seq![
            "dispatching stage 2 against newly-created activity"@,
        ]);
    }
    assert forall|shown: Seq<char>, error: IpcError|
        #![trigger replied(then, Err(error), shown)]
        {
            failure(replied(then, Err(error), shown)) matches Some(f) && f.contexts == seq![
                "creating activity from move-window picker"@,
            ]
        } by {
        law_failed_round_trip_names_its_operation(then, error, shown);
    }
}

// ---- Moving a workspace ----------------------------------------------------

/// Whether the given workspace is now to be focused, then the overview to be
/// opened where that is wanted, and then nothing more.
pub open spec fn focuses(p: ProgressView, workspace_id: u64, overview: bool) -> bool {
    p.step matches StepView::Send { request, then } && {
        &&& request == RequestView::Action(
            ActionView::FocusWorkspace {
                reference: WorkspaceReferenceView::Id(workspace_id),
                activity: None,
            },
        )
        &&& is_part_of(then, "focusing target workspace"@)
        &&& quotes_refusals(then)
        &&& forall|shown: Seq<char>|
            #![trigger replied(then, Ok(Response::Handled), shown)]
            {
                let q = replied(then, Ok(Response::Handled), shown);
                if overview {
                    is_last_request(
                        q,
                        RequestView::Action(ActionView::OpenOverview),
                        "opening overview after follow"@,
                    )
                } else {
                    succeeded(q)
                }
            }
    }
}

/// Whether the user is now asked to follow the given workspace: the first of two
/// rows focuses it, the second does nothing, and any other answer is refused.
pub open spec fn asks_to_follow(
    p: ProgressView,
    activity_name: Seq<char>,
    workspace_id: u64,
    overview: bool,
) -> bool {
    p.step matches StepView::Pick { prompt, items, then } && {
        &&& prompt == "Follow?"@
        &&& items.len() == 2
        &&& items[0] == "Follow workspace to activity '"@ + activity_name + "'?"@
        &&& items[0] != items[1]
        &&& forall|row: String|
            #![trigger picked_one(then, Ok(PickerOutcome::Selected(row)))]
            {
                let q = picked_one(then, Ok(PickerOutcome::Selected(row)));
                if row@ == items[0] {
                    focuses(q, workspace_id, overview)
                } else if row@ == items[1] {
                    succeeded(q)
                } else {
                    is_malformed(
                        q,
                        "follow picker returned row not in items: "@ + debug_form(row@),
                    )
                }
            }
    }
}

/// Whether a workspace is now to be moved to an activity without the focus: the
/// one given, else the one with the focus. Once that is confirmed the user is asked
/// whether to follow `followed`, where there is such a one. A name that is unknown
/// by then is reported as that of a missing activity.
pub open spec fn is_workspace_move(
    p: ProgressView,
    workspace: Option<u64>,
    activity_name: Seq<char>,
    followed: Option<u64>,
    overview: bool,
) -> bool {
    p.step matches StepView::Send { request, then } && {
        &&& request == RequestView::Action(
            ActionView::MoveWorkspaceToActivity {
                workspace: match workspace {
                    Some(id) => Some(WorkspaceReferenceView::Id(id)),
                    None => None,
                },
                activity: ActivityReferenceView::Name(activity_name),
                focus: false,
            },
        )
        &&& is_part_of(then, "moving workspace to activity"@)
        &&& forall|shown: Seq<char>|
            #![trigger replied(then, Ok(Response::Handled), shown)]
            {
                let q = replied(then, Ok(Response::Handled), shown);
                match followed {
                    Some(id) => asks_to_follow(q, activity_name, id, overview),
                    None => succeeded(q),
                }
            }
        &&& forall|shown: Seq<char>, message: String|
            #![trigger replied(then, Err(IpcError::Server(message)), shown)]
            message@ == "activity not found"@ ==> fails_with(
                replied(then, Err(IpcError::Server(message)), shown),
                CliErrorView::ActivityNotFound(activity_name),
            )
    }
}

proof fn lemma_focuses(workspace_id: u64, overview: bool)
    ensures
        focuses(following_workspace(workspace_id, overview), workspace_id, overview),
{
    lemma_handled(following_workspace(workspace_id, overview).step->Send_then);
    lemma_handled(opening_overview().step->Send_then);
}

proof fn lemma_asks_to_follow(activity_name: String, workspace_id: u64, overview: bool)
    ensures
        asks_to_follow(
            crate::move_workspace::asking(activity_name, workspace_id, overview),
            activity_name@,
            workspace_id,
            overview,
        ),
{
    let p = crate::move_workspace::asking(activity_name, workspace_id, overview);
    let items = crate::move_workspace::follow_rows(activity_name@);
    reveal_strlit("Follow workspace to activity '");
    reveal_strlit("« Stay »");
    reveal_strlit("__jiji_activities_stay__");
    assert(items[0][0] == 'F');
    assert(items[1][0] != 'F');
    lemma_focuses(workspace_id, overview);
}

/// A workspace is moved to the activity that was chosen: the workspace given, else
/// the one with the focus. Where it is to be followed, the one that the user is
/// asked about, and that is focused then, is the one that was moved.
pub proof fn law_workspace_move(
    activity_name: String,
    follow: FollowMode,
    workspace: Option<u64>,
    workspaces: Vec<Workspace>,
    shown: Seq<char>,
)
    ensures
        ({
            let p = picked_one(
                AfterPick::MoveWorkspace { follow, workspace },
                Ok(PickerOutcome::Selected(activity_name)),
            );
            let overview = follow == FollowMode::FollowAndOverview;
            if follow == FollowMode::Off {
                is_workspace_move(p, workspace, activity_name@, None, overview)
            } else if workspace is Some {
                is_workspace_move(p, workspace, activity_name@, workspace, overview)
            } else {
                p.step matches StepView::Send { request: RequestView::Workspaces, then } && {
                    let q = replied(then, Ok(Response::Workspaces(workspaces)), shown);
                    &&& (forall|f: int| !#[trigger] is_the_focused(workspaces@, f))
                        ==> is_malformed(q, "no focused workspace"@)
                    &&& forall|f: int| #[trigger]
                        is_the_focused(workspaces@, f) ==> is_workspace_move(
                            q,
                            None,
                            activity_name@,
                            Some(workspaces@[f].id),
                            overview,
                        )
                }
            }
        }),
{
    let overview = follow == FollowMode::FollowAndOverview;
    lemma_the_focused(workspaces@);
    match workspace {
        Some(id) => lemma_asks_to_follow(activity_name, id, overview),
        None => {},
    }
    let followed = if follow == FollowMode::Off {
        None
    } else {
        workspace
    };
    lemma_handled(
        crate::move_workspace::moving(workspace, activity_name, followed, overview).step->Send_then,
    );
    match focused(workspaces@) {
        Some(w) => {
            lemma_asks_to_follow(activity_name, w.id, overview);
            lemma_handled(
                crate::move_workspace::moving(
                    None,
                    activity_name,
                    Some(w.id),
                    overview,
                ).step->Send_then,
            );
        },
        None => {},
    }
}

// ---- Assigning a workspace -------------------------------------------------

/// Whether no two activities of the list have the same id.
pub open spec fn activity_ids_distinct(activities: Seq<Activity>) -> bool {
    forall|i: int, j: int|
        0 <= i < j < activities.len() ==> (#[trigger] activities[i]).id != (
        #[trigger] activities[j]).id
}

/// Whether no two activities of the list have the same name.
pub open spec fn activity_names_distinct(activities: Seq<Activity>) -> bool {
    forall|i: int, j: int|
        0 <= i < j < activities.len() ==> (#[trigger] activities[i]).name@ != (
        #[trigger] activities[j]).name@
}

/// Whether the workspace at place `i` is the one to assign: the one with the given
/// id, else the one with the focus; should there be several, the first.
pub open spec fn is_the_assigned(
    workspaces: Seq<Workspace>,
    workspace: Option<u64>,
    i: int,
) -> bool {
    match workspace {
        None => is_the_focused(workspaces, i),
        Some(id) => {
            &&& 0 <= i < workspaces.len()
            &&& workspaces[i].id == id
            &&& forall|j: int| 0 <= j < i ==> (#[trigger] workspaces[j]).id != id
        },
    }
}

proof fn lemma_the_assigned(workspaces: Seq<Workspace>, id: u64)
    ensures
        match found(workspaces, has_workspace_id(id)) {
            Some(w) => exists|i: int| #[trigger]
                is_the_assigned(workspaces, Some(id), i) && workspaces[i] == w,
            None => forall|i: int| !#[trigger] is_the_assigned(workspaces, Some(id), i),
        },
        forall|i: int, j: int|
            #[trigger] is_the_assigned(workspaces, Some(id), i) && #[trigger] is_the_assigned(
                workspaces,
                Some(id),
                j,
            ) ==> i == j,
{
    let p = has_workspace_id(id);
    lemma_first_where(workspaces, p);
    assert forall|i: int, j: int|
        #[trigger] is_the_assigned(workspaces, Some(id), i) && #[trigger] is_the_assigned(
            workspaces,
            Some(id),
            j,
        ) implies i == j by {
        if i < j {
            assert(workspaces[i].id != id);
        } else if j < i {
            assert(workspaces[j].id != id);
        }
    }
    match first_where(workspaces, p) {
        Some(k) => {
            assert forall|j: int| 0 <= j < k implies (#[trigger] workspaces[j]).id != id by {
                assert(!p(workspaces[j]));
            }
            assert(is_the_assigned(workspaces, Some(id), k));
        },
        None => {
            assert forall|i: int| !#[trigger] is_the_assigned(workspaces, Some(id), i) by {
                if 0 <= i < workspaces.len() {
                    assert(!p(workspaces[i]));
                }
            }
        },
    }
}

/// Whether the activity at place `j` is the one that an id stands for; should there
/// be several, the last.
pub open spec fn stands_for(activities: Seq<Activity>, id: u64, j: int) -> bool {
    &&& 0 <= j < activities.len()
    &&& activities[j].id == id
    &&& forall|i: int| j < i < activities.len() ==> (#[trigger] activities[i]).id != id
}

/// An id has a name if and only if one of the listed activities has the id, and
/// then the name of that activity.
pub proof fn law_names_of_ids(activities: Seq<Activity>, id: u64)
    ensures
        name_map(activities).contains_key(id) <==> exists|j: int| #[trigger]
            stands_for(activities, id, j),
        forall|j: int| #[trigger]
            stands_for(activities, id, j) ==> name_map(activities)[id] == activities[j].name,
    decreases activities.len(),
{
    if activities.len() > 0 {
        let head = activities.drop_last();
        let last = activities.len() - 1;
        law_names_of_ids(head, id);
        assert forall|i: int| 0 <= i < head.len() implies #[trigger] head[i] == activities[i] by {}
        if activities[last].id == id {
            assert(stands_for(activities, id, last));
            assert forall|j: int| #[trigger] stands_for(activities, id, j) implies j == last by {
                if j < last {
                    assert(activities[last].id != id);
                }
            }
        } else {
            assert forall|j: int| #[trigger] stands_for(activities, id, j) <==> stands_for(
                head,
                id,
                j,
            ) by {
                if stands_for(activities, id, j) {
                    assert(head[j] == activities[j]);
                    assert forall|i: int| j < i < head.len() implies (#[trigger] head[i]).id
                        != id by {
                        assert(activities[i].id != id);
                    }
                }
                if stands_for(head, id, j) {
                    assert(head[j] == activities[j]);
                    assert forall|i: int| j < i < activities.len() implies (
                    #[trigger] activities[i]).id != id by {
                        if i < last {
                            assert(head[i].id != id);
                        }
                    }
                }
            }
            if exists|j: int| #[trigger] stands_for(head, id, j) {
                let j = choose|j: int| #[trigger] stands_for(head, id, j);
                assert(stands_for(activities, id, j));
            }
            if exists|j: int| #[trigger] stands_for(activities, id, j) {
                let j = choose|j: int| #[trigger] stands_for(activities, id, j);
                assert(stands_for(head, id, j));
            }
        }
    }
}

/// Whether a workspace belongs to an activity with the given name: it holds an id
/// that stands for one.
pub open spec fn belongs_to_one_named(
    w: Workspace,
    activities: Seq<Activity>,
    name: Seq<char>,
) -> bool {
    exists|id: u64, j: int| #[trigger]
        w.activities@.contains(id) && #[trigger] stands_for(activities, id, j)
            && activities[j].name@ == name
}

/// The names of the activities that a workspace belongs to are those of the listed
/// activities whose ids it holds.
proof fn lemma_memberships(w: Workspace, activities: Seq<Activity>, name: Seq<char>)
    ensures
        memberships(w, activities).contains(name) <==> belongs_to_one_named(w, activities, name),
{
    let known = name_map(activities);
    let p = is_known(known);
    let f = known_name(known);
    let ids = w.activities@;
    let kept = ids.filter(p);
    let current = memberships(w, activities);
    let places = lemma_filter_places(ids, p);
    if current.contains(name) {
        let i = choose|i: int| 0 <= i < current.len() && current[i] == name;
        let id = kept[i];
        assert(places.contains(places[i]));
        assert(id == ids[places[i]] && p(id));
        law_names_of_ids(activities, id);
        let j = choose|j: int| #[trigger] stands_for(activities, id, j);
        assert(ids.contains(id));
        assert(activities[j].name@ == name);
    }
    if belongs_to_one_named(w, activities, name) {
        let (id, j) = choose|id: u64, j: int| #[trigger]
            ids.contains(id) && #[trigger] stands_for(activities, id, j) && activities[j].name@
                == name;
        law_names_of_ids(activities, id);
        let k = choose|k: int| 0 <= k < ids.len() && ids[k] == id;
        assert(p(ids[k]));
        assert(places.contains(k));
        let i = choose|i: int| 0 <= i < places.len() && places[i] == k;
        assert(kept[i] == id);
        assert(current[i] == f(kept[i]));
    }
}

/// The menu for assigning lists all activities, for the workspace given or else
/// the one with the focus. An activity counts as one of the current ones if and
/// only if the workspace holds its id.
pub proof fn law_assign_menu(
    activities: Vec<Activity>,
    follow: FollowMode,
    workspace: Option<u64>,
    workspaces: Vec<Workspace>,
    shown: Seq<char>,
)
    ensures
        ({
            let p = replied(
                AfterReply::AssignWorkspaces { activities, follow, workspace },
                Ok(Response::Workspaces(workspaces)),
                shown,
            );
            let listed = activities@;
            &&& (forall|i: int| !#[trigger] is_the_assigned(workspaces@, workspace, i))
                ==> is_malformed(
                p,
                match workspace {
                    Some(id) => "workspace id "@ + decimal(id as nat) + " not found in snapshot"@,
                    None => "no focused workspace"@,
                },
            ) && failure(p)->0.contexts == seq![
                if workspace is Some {
                    "locating explicit workspace in snapshot"@
                } else {
                    "locating focused workspace"@
                },
            ]
            &&& forall|i: int| #[trigger]
                is_the_assigned(workspaces@, workspace, i) ==> (p.step matches StepView::PickMany {
                    names,
                    current,
                    then,
                } && {
                    &&& then == (AfterPickMany::Assign {
                        activities,
                        workspace_id: workspaces@[i].id,
                        follow,
                    })
                    &&& names.len() == listed.len()
                    &&& forall|j: int|
                        0 <= j < listed.len() ==> (#[trigger] listed[j]).name@ == names[j]
                    &&& forall|name: Seq<char>| #[trigger]
                        current.contains(name) <==> belongs_to_one_named(
                            workspaces@[i],
                            listed,
                            name,
                        )
                    &&& activity_ids_distinct(listed) && activity_names_distinct(listed) ==> forall|
                        j: int,
                    |
                        0 <= j < listed.len() ==> (current.contains(
                            (#[trigger] listed[j]).name@,
                        ) <==> workspaces@[i].activities@.contains(listed[j].id))
                })
        }),
{
    let listed = activities@;
    let p = replied(
        AfterReply::AssignWorkspaces { activities, follow, workspace },
        Ok(Response::Workspaces(workspaces)),
        shown,
    );
    lemma_the_focused(workspaces@);
    match workspace {
        Some(id) => lemma_the_assigned(workspaces@, id),
        None => {
            match focused(workspaces@) {
                Some(w) => {
                    let f = choose|f: int| #[trigger]
                        is_the_focused(workspaces@, f) && workspaces@[f] == w;
                    assert(is_the_assigned(workspaces@, workspace, f));
                },
                None => {},
            }
        },
    }
    assert forall|i: int| #[trigger] is_the_assigned(workspaces@, workspace, i) implies {
        p.step matches StepView::PickMany { names, current, then } && {
            &&& then == (AfterPickMany::Assign {
                activities,
                workspace_id: workspaces@[i].id,
                follow,
            })
            &&& names == crate::ipc_helpers::names(listed)
            &&& current == memberships(workspaces@[i], listed)
        }
    } by {
        if workspace is None {
            assert(is_the_focused(workspaces@, i));
        }
    }
    assert forall|i: int| #[trigger] is_the_assigned(workspaces@, workspace, i) implies {
        p.step matches StepView::PickMany { names, current, then } && {
            &&& forall|name: Seq<char>| #[trigger]
                current.contains(name) <==> belongs_to_one_named(workspaces@[i], listed, name)
            &&& activity_ids_distinct(listed) && activity_names_distinct(listed) ==> forall|j: int|
                0 <= j < listed.len() ==> (current.contains((#[trigger] listed[j]).name@)
                    <==> workspaces@[i].activities@.contains(listed[j].id))
        }
    } by {
        let w = workspaces@[i];
        let current = memberships(w, listed);
        assert forall|name: Seq<char>| #[trigger] current.contains(name) <==> belongs_to_one_named(
            w,
            listed,
            name,
        ) by {
            lemma_memberships(w, listed, name);
        }
        if activity_ids_distinct(listed) && activity_names_distinct(listed) {
            assert forall|j: int| 0 <= j < listed.len() implies (current.contains(
                (#[trigger] listed[j]).name@,
            ) <==> w.activities@.contains(listed[j].id)) by {
                lemma_memberships(w, listed, listed[j].name@);
                assert(stands_for(listed, listed[j].id, j));
                if current.contains(listed[j].name@) {
                    let (id, k) = choose|id: u64, k: int| #[trigger]
                        w.activities@.contains(id) && #[trigger] stands_for(listed, id, k)
                            && listed[k].name@ == listed[j].name@;
                    assert(k == j);
                }
            }
        }
    }
}

/// Whether the user is now asked which of the activities to follow the workspace
/// into: the last row does nothing; any other switches to the activity of that name
/// and then focuses the workspace. Any other answer is refused.
pub open spec fn asks_where_to_follow(
    p: ProgressView,
    listed: Seq<Seq<char>>,
    workspace_id: u64,
    overview: bool,
) -> bool {
    p.step matches StepView::Pick { prompt, items, then } && {
        &&& prompt == "Follow?"@
        &&& items.len() == listed.len() + 1
        &&& forall|i: int| 0 <= i < listed.len() ==> #[trigger] items[i] == listed[i]
        &&& forall|row: String|
            #![trigger picked_one(then, Ok(PickerOutcome::Selected(row)))]
            {
                let q = picked_one(then, Ok(PickerOutcome::Selected(row)));
                if row@ == items.last() {
                    succeeded(q)
                } else if listed.contains(row@) {
                    q.step matches StepView::Send { request, then: next } && request
                        == RequestView::Action(
                        ActionView::SwitchActivity { activity: ActivityReferenceView::Name(row@) },
                    ) && is_part_of(next, "switching to selected activity"@) && quotes_refusals(
                        next,
                    ) && forall|shown: Seq<char>| #[trigger]
                        focuses(
                            replied(next, Ok(Response::Handled), shown),
                            workspace_id,
                            overview,
                        )
                } else {
                    is_malformed(
                        q,
                        "follow picker returned row not in items: "@ + debug_form(row@),
                    )
                }
            }
    }
}

/// Whether a workspace is now to be assigned to the activities with the given
/// names, all of them and no other. Once that is confirmed the user is asked which
/// of them to follow it into, where that is wanted.
pub open spec fn is_assignment(
    p: ProgressView,
    workspace_id: u64,
    listed: Seq<Seq<char>>,
    follow: FollowMode,
) -> bool {
    p.step matches StepView::Send { request, then } && {
        &&& request matches RequestView::Action(
            ActionView::SetWorkspaceActivities { workspace, activities },
        ) && {
            &&& workspace == Some(WorkspaceReferenceView::Id(workspace_id))
            &&& activities.len() == listed.len()
            &&& forall|i: int|
                0 <= i < listed.len() ==> #[trigger] activities[i] == ActivityReferenceView::Name(
                    listed[i],
                )
        }
        &&& is_part_of(then, "assigning workspace activities"@)
        &&& quotes_refusals(then)
        &&& forall|shown: Seq<char>|
            #![trigger replied(then, Ok(Response::Handled), shown)]
            {
                let q = replied(then, Ok(Response::Handled), shown);
                if follow == FollowMode::Off || listed.len() == 0 {
                    succeeded(q)
                } else {
                    asks_where_to_follow(
                        q,
                        listed,
                        workspace_id,
                        follow == FollowMode::FollowAndOverview,
                    )
                }
            }
    }
}

proof fn lemma_assignment(workspace_id: u64, saved: Saved, follow: FollowMode)
    ensures
        is_assignment(
            crate::assign_workspace::assigning(workspace_id, saved, follow),
            workspace_id,
            saved.texts(),
            follow,
        ),
{
    let overview = follow == FollowMode::FollowAndOverview;
    let listed = saved.texts();
    let p = crate::assign_workspace::asking(saved, workspace_id, overview);
    let items = crate::assign_workspace::follow_rows(saved);
    lemma_focuses(workspace_id, overview);
    lemma_handled(
        crate::assign_workspace::assigning(workspace_id, saved, follow).step->Send_then,
    );
    let then = p.step->Pick_then;
    assert forall|row: String|
        #![trigger picked_one(then, Ok(PickerOutcome::Selected(row)))]
        row@ != stay_row(listed) && listed.contains(row@) implies is_part_of(
        picked_one(then, Ok(PickerOutcome::Selected(row))).step->Send_then,
        "switching to selected activity"@,
    ) && quotes_refusals(picked_one(then, Ok(PickerOutcome::Selected(row))).step->Send_then) by {
        lemma_handled(following_activity(row@, workspace_id, overview).step->Send_then);
    }
    assert(items.last() == stay_row(listed));
    assert(asks_where_to_follow(p, listed, workspace_id, overview));
}

/// A workspace is assigned to the activities that were chosen. Asking for a single
/// choice instead offers all activities, and the workspace is assigned to the one
/// chosen.
pub proof fn law_assign_choice(
    activities: Vec<Activity>,
    workspace_id: u64,
    follow: FollowMode,
    chosen: Vec<String>,
    row: String,
)
    ensures
        ({
            let at = AfterPickMany::Assign { activities, workspace_id, follow };
            let one = picked_many(at, Ok(MultiPickerOutcome::ChainSingle));
            &&& is_assignment(
                picked_many(at, Ok(MultiPickerOutcome::Selected(chosen))),
                workspace_id,
                texts(chosen@),
                follow,
            )
            &&& one.step matches StepView::Pick { prompt, items, then } && {
                &&& prompt == "Assign workspace to (one):"@
                &&& items.len() == activities@.len()
                &&& forall|j: int|
                    0 <= j < activities@.len() ==> (#[trigger] activities@[j]).name@ == items[j]
                &&& is_assignment(
                    picked_one(then, Ok(PickerOutcome::Selected(row))),
                    workspace_id,
                    seq![row@],
                    follow,
                )
            }
        }),
{
    lemma_assignment(workspace_id, Saved::Many(chosen), follow);
    lemma_assignment(workspace_id, Saved::One(row), follow);
}

} // verus!
