//! What is read off the lists of activities and workspaces.

use crate::cli::FollowMode;
use crate::error::{CliError, CliErrorView, server, server_error};
use crate::ipc::{Activity, Workspace};
use crate::ipc_helpers::{active_index, find_active};
use crate::order::{Ranked, lemma_one_order, lemma_ranked, ranked, same_rank, sort_ranked};
use crate::search::{found, lemma_first_is, lemma_first_none};
use crate::text::str_eq;
use vstd::prelude::*;
use vstd::string::*;

verus! {

/// The focused workspace.
pub open spec fn focused(workspaces: Seq<Workspace>) -> Option<Workspace> {
    found(workspaces, |w: Workspace| w.is_focused)
}

/// The id of the focused workspace.
pub open spec fn focused_id(workspaces: Seq<Workspace>) -> Option<u64> {
    match focused(workspaces) {
        Some(w) => Some(w.id),
        None => None,
    }
}

/// The focused workspace; a list without one is malformed.
pub fn focused_workspace(workspaces: &Vec<Workspace>) -> (r: Result<&Workspace, CliError>)
    ensures
        match r {
            Ok(w) => focused(workspaces@) == Some(*w),
            Err(e) => focused(workspaces@) is None && e@ == server("no focused workspace"@),
        },
{
    let ghost p = |w: Workspace| w.is_focused;
    let mut i: usize = 0;
    while i < workspaces.len()
        invariant
            i <= workspaces@.len(),
            p == (|w: Workspace| w.is_focused),
            forall|j: int| 0 <= j < i ==> !p(#[trigger] workspaces@[j]),
        decreases workspaces@.len() - i,
    {
        if workspaces[i].is_focused {
            proof {
                lemma_first_is(workspaces@, p, i as int);
            }
            return Ok(&workspaces[i]);
        }
        i = i + 1;
    }
    proof {
        lemma_first_none(workspaces@, p);
    }
    Err(server_error("no focused workspace".to_owned()))
}

/// The output of the focused workspace.
pub open spec fn focused_output(workspaces: Seq<Workspace>) -> Result<Seq<char>, CliErrorView> {
    match focused(workspaces) {
        None => Err(server("no focused workspace"@)),
        Some(w) => match w.output {
            Some(output) => Ok(output@),
            None => Err(server("focused workspace has no output"@)),
        },
    }
}

/// The output of the focused workspace; a list without one is malformed.
pub fn focused_output_name(workspaces: &Vec<Workspace>) -> (r: Result<&str, CliError>)
    ensures
        match r {
            Ok(output) => focused_output(workspaces@) == Ok::<Seq<char>, CliErrorView>(output@),
            Err(e) => focused_output(workspaces@) == Err::<Seq<char>, CliErrorView>(e@),
        },
{
    match focused_workspace(workspaces) {
        Err(e) => Err(e),
        Ok(w) => match &w.output {
            Some(output) => Ok(output.as_str()),
            None => Err(server_error("focused workspace has no output".to_owned())),
        },
    }
}

/// The active activity; a list without one is malformed.
pub fn current_activity(activities: &Vec<Activity>) -> (r: Result<&Activity, CliError>)
    ensures
        match r {
            Ok(a) => match active_index(activities@) {
                Some(k) => 0 <= k < activities@.len() && *a == activities@[k],
                None => false,
            },
            Err(e) => active_index(activities@) is None && e@ == server("no active activity"@),
        },
{
    match find_active(activities) {
        Some(k) => Ok(&activities[k]),
        None => Err(server_error("no active activity".to_owned())),
    }
}

/// Whether an activity has the given name.
pub open spec fn has_name(name: Seq<char>) -> spec_fn(Activity) -> bool {
    |a: Activity| a.name@ == name
}

/// The activity with the given name.
pub open spec fn named(activities: Seq<Activity>, name: Seq<char>) -> Option<Activity> {
    found(activities, has_name(name))
}

/// Finds the activity with the given name.
pub fn find_named<'a>(activities: &'a Vec<Activity>, name: &str) -> (r: Option<&'a Activity>)
    ensures
        match r {
            Some(a) => named(activities@, name@) == Some(*a),
            None => named(activities@, name@) is None,
        },
{
    let ghost p = has_name(name@);
    let mut i: usize = 0;
    while i < activities.len()
        invariant
            i <= activities@.len(),
            p == has_name(name@),
            forall|j: int| 0 <= j < i ==> !p(#[trigger] activities@[j]),
        decreases activities@.len() - i,
    {
        if str_eq(activities[i].name.as_str(), name) {
            proof {
                lemma_first_is(activities@, p, i as int);
            }
            return Some(&activities[i]);
        }
        i = i + 1;
    }
    proof {
        lemma_first_none(activities@, p);
    }
    None
}

/// Whether `id` is one of `ids`.
pub fn has_id(ids: &Vec<u64>, id: u64) -> (r: bool)
    ensures
        r == ids@.contains(id),
{
    let mut i: usize = 0;
    while i < ids.len()
        invariant
            i <= ids@.len(),
            forall|j: int| 0 <= j < i ==> ids@[j] != id,
        decreases ids@.len() - i,
    {
        if ids[i] == id {
            return true;
        }
        i = i + 1;
    }
    false
}

/// Whether a workspace belongs to an activity and is on an output.
pub open spec fn lies_in(w: Workspace, activity_id: u64, output: Seq<char>) -> bool {
    &&& w.activities@.contains(activity_id)
    &&& match w.output {
        Some(o) => o@ == output,
        None => false,
    }
}

/// The workspaces of an activity on an output, in the order of the list.
pub open spec fn lying_in(
    workspaces: Seq<Workspace>,
    activity_id: u64,
    output: Seq<char>,
) -> Seq<Workspace> {
    workspaces.filter(|w: Workspace| lies_in(w, activity_id, output))
}

/// The workspaces of an activity on an output, in the order of the list.
pub fn workspaces_in_activity_on_focused_output<'a>(
    workspaces: &'a Vec<Workspace>,
    activity_id: u64,
    focused_output: &str,
) -> (r: Vec<&'a Workspace>)
    ensures
        r@.unref() == lying_in(workspaces@, activity_id, focused_output@),
{
    let ghost p = |w: Workspace| lies_in(w, activity_id, focused_output@);
    let mut out: Vec<&'a Workspace> = Vec::new();
    let mut i: usize = 0;
    proof {
        reveal(Seq::filter);
        assert(out@.unref() =~= workspaces@.take(0).filter(p));
    }
    while i < workspaces.len()
        invariant
            i <= workspaces@.len(),
            p == (|w: Workspace| lies_in(w, activity_id, focused_output@)),
            out@.unref() == workspaces@.take(i as int).filter(p),
        decreases workspaces@.len() - i,
    {
        let w = &workspaces[i];
        let ghost before = out@;
        let here = match &w.output {
            Some(o) => str_eq(o.as_str(), focused_output),
            None => false,
        };
        if has_id(&w.activities, activity_id) && here {
            out.push(w);
        }
        proof {
            let next = workspaces@.take(i + 1);
            assert(next.drop_last() =~= workspaces@.take(i as int));
            assert(next.last() == *w);
            reveal(Seq::filter);
            assert(p(*w) ==> out@.unref() =~= before.unref().push(*w));
        }
        i = i + 1;
    }
    proof {
        assert(workspaces@.take(i as int) =~= workspaces@);
    }
    out
}

/// Workspaces rank as a menu lists them: those of the active activity first;
/// then by position; then by id.
impl Ranked for Workspace {
    open spec fn at_most(&self, other: &Self) -> bool {
        if self.is_in_active_activity != other.is_in_active_activity {
            self.is_in_active_activity
        } else if self.idx != other.idx {
            self.idx < other.idx
        } else {
            self.id <= other.id
        }
    }

    fn is_at_most(&self, other: &Self) -> (r: bool) {
        if self.is_in_active_activity != other.is_in_active_activity {
            self.is_in_active_activity
        } else if self.idx != other.idx {
            self.idx < other.idx
        } else {
            self.id <= other.id
        }
    }

    proof fn lemma_total(a: Self, b: Self) {
    }

    proof fn lemma_transitive(a: Self, b: Self, c: Self) {
    }
}

/// Puts workspaces in the order of a menu: those of the active activity first;
/// then by position; then by id.
pub fn sort_for_picker(workspaces: &mut Vec<&Workspace>)
    ensures
        final(workspaces)@.unref() == ranked(old(workspaces)@.unref()),
{
    let sorted = sort_ranked(workspaces);
    *workspaces = sorted;
}

/// A menu leaves out no workspace and lists none twice: those of the active
/// activity come first, and among them, as among the others, the position and
/// then the id decides.
pub proof fn law_menu_order(workspaces: Seq<Workspace>)
    ensures
        ranked(workspaces).to_multiset() == workspaces.to_multiset(),
        forall|i: int, j: int|
            #![trigger ranked(workspaces)[i], ranked(workspaces)[j]]
            0 <= i < j < ranked(workspaces).len() ==> {
                let a = ranked(workspaces)[i];
                let b = ranked(workspaces)[j];
                &&& b.is_in_active_activity ==> a.is_in_active_activity
                &&& a.is_in_active_activity == b.is_in_active_activity ==> a.idx <= b.idx
                &&& a.is_in_active_activity == b.is_in_active_activity && a.idx == b.idx ==> a.id
                    <= b.id
            },
{
    lemma_ranked(workspaces);
    assert forall|i: int, j: int|
        #![trigger ranked(workspaces)[i], ranked(workspaces)[j]]
        0 <= i < j < ranked(workspaces).len() implies ranked(workspaces)[i].at_most(
        &ranked(workspaces)[j],
    ) by {}
}

/// The order of a menu does not depend on the order in which the compositor
/// lists the workspaces.
pub proof fn law_menu_order_is_predictable(a: Seq<Workspace>, b: Seq<Workspace>)
    requires
        a.to_multiset() == b.to_multiset(),
        forall|i: int, j: int|
            0 <= i < a.len() && 0 <= j < a.len() && (#[trigger] a[i]).id == (#[trigger] a[j]).id
                ==> a[i] == a[j],
    ensures
        ranked(a) == ranked(b),
{
    broadcast use vstd::seq_lib::group_to_multiset_ensures;

    lemma_ranked(a);
    lemma_ranked(b);
    a.to_multiset_ensures();
    ranked(a).to_multiset_ensures();
    assert forall|x: Workspace, y: Workspace|
        ranked(a).contains(x) && ranked(a).contains(y) && #[trigger] same_rank(x, y) implies x
        == y by {
        assert(a.to_multiset().count(x) > 0 && a.to_multiset().count(y) > 0);
        assert(a.contains(x) && a.contains(y));
    }
    lemma_one_order(ranked(a), ranked(b));
}

/// Among workspaces without a window, the one with the highest position; among
/// several of those, the last.
pub open spec fn trailing_empty(workspaces: Seq<Workspace>) -> Option<Workspace>
    decreases workspaces.len(),
{
    if workspaces.len() == 0 {
        None
    } else {
        let last = workspaces.last();
        let best = trailing_empty(workspaces.drop_last());
        match best {
            _ if last.active_window_id is Some => best,
            Some(w) if w.idx > last.idx => best,
            _ => Some(last),
        }
    }
}

/// Among workspaces without a window, the one with the highest position; among
/// several of those, the last.
pub fn trailing_empty_workspace<'a>(filtered: &Vec<&'a Workspace>) -> (r: Option<&'a Workspace>)
    ensures
        match r {
            Some(w) => trailing_empty(filtered@.unref()) == Some(*w),
            None => trailing_empty(filtered@.unref()) is None,
        },
{
    let mut best: Option<&'a Workspace> = None;
    let mut i: usize = 0;
    let ghost all = filtered@.unref();
    while i < filtered.len()
        invariant
            i <= filtered@.len(),
            all == filtered@.unref(),
            match best {
                Some(w) => trailing_empty(all.take(i as int)) == Some(*w),
                None => trailing_empty(all.take(i as int)) is None,
            },
        decreases filtered@.len() - i,
    {
        let w = filtered[i];
        proof {
            let next = all.take(i + 1);
            assert(next.drop_last() =~= all.take(i as int));
            assert(next.last() == *w);
        }
        if w.active_window_id.is_none() {
            match best {
                Some(b) => {
                    if b.idx <= w.idx {
                        best = Some(w);
                    }
                },
                None => {
                    best = Some(w);
                },
            }
        }
        i = i + 1;
    }
    proof {
        assert(all.take(i as int) =~= all);
    }
    best
}

/// The trailing empty workspace is one of the list, has no window, and no
/// workspace without a window stands further back; where there is none, every
/// workspace has a window.
pub proof fn law_trailing_empty(workspaces: Seq<Workspace>)
    ensures
        match trailing_empty(workspaces) {
            Some(w) => {
                &&& workspaces.contains(w)
                &&& w.active_window_id is None
                &&& forall|i: int|
                    0 <= i < workspaces.len() && (#[trigger] workspaces[i]).active_window_id is None
                        ==> workspaces[i].idx <= w.idx
            },
            None => forall|i: int|
                0 <= i < workspaces.len() ==> (#[trigger] workspaces[i]).active_window_id is Some,
        },
    decreases workspaces.len(),
{
    if workspaces.len() > 0 {
        let head = workspaces.drop_last();
        let last = workspaces.last();
        law_trailing_empty(head);
        assert(workspaces[workspaces.len() - 1] == last);
        assert forall|i: int| 0 <= i < workspaces.len() - 1 implies workspaces[i] == head[i] by {}
        match trailing_empty(head) {
            Some(w) => {
                let k = choose|k: int| 0 <= k < head.len() && head[k] == w;
                assert(workspaces[k] == w);
            },
            None => {},
        }
    }
}

/// The window on the focused workspace.
pub open spec fn captured(workspaces: Seq<Workspace>) -> Option<u64> {
    match focused(workspaces) {
        Some(w) => w.active_window_id,
        None => None,
    }
}

/// The active window of the focused workspace, where there is one.
pub fn capture_focused_window_id(workspaces: &Vec<Workspace>) -> (r: Option<u64>)
    ensures
        r == captured(workspaces@),
{
    match focused_workspace(workspaces) {
        Ok(w) => w.active_window_id,
        Err(_) => None,
    }
}

/// The window that a move names: the one asked for; else, to be followed, the
/// one that has the focus; else none, and the compositor takes the one that has
/// the focus then.
pub open spec fn window_to_move(
    follow: FollowMode,
    window: Option<u64>,
    workspaces: Seq<Workspace>,
) -> Option<u64> {
    match window {
        Some(id) => Some(id),
        None => if follow.follows() {
            captured(workspaces)
        } else {
            None
        },
    }
}

/// Whether a window was to be followed but none has the focus.
pub open spec fn nothing_captured(
    follow: FollowMode,
    window: Option<u64>,
    workspaces: Seq<Workspace>,
) -> bool {
    window is None && follow.follows() && captured(workspaces) is None
}

/// Shown where a window was to be followed but none has the focus.
pub const NOTHING_CAPTURED: &'static str =
    "niri-activities: --follow set but no focused window to capture; dispatching move with compositor-resolved window (no window-id refocus will fire after follow)";

/// The window that a move names, and a line to show with it.
pub fn decide_window_id_for_dispatch(
    follow: FollowMode,
    window: Option<u64>,
    workspaces: &Vec<Workspace>,
) -> (r: (Option<u64>, Option<&'static str>))
    ensures
        r.0 == window_to_move(follow, window, workspaces@),
        match r.1 {
            Some(line) => nothing_captured(follow, window, workspaces@) && line@
                == NOTHING_CAPTURED@,
            None => !nothing_captured(follow, window, workspaces@),
        },
{
    match window {
        Some(id) => (Some(id), None),
        None => {
            if !follow.should_follow() {
                return (None, None);
            }
            match capture_focused_window_id(workspaces) {
                Some(id) => (Some(id), None),
                None => (None, Some(NOTHING_CAPTURED)),
            }
        },
    }
}

} // verus!
