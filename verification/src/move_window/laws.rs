//! What holds of the menus as a whole: every row that is offered is understood
//! when it is chosen, and special rows are never taken for ordinary ones.

use crate::error::ends_with;
use crate::ipc::{Activity, Workspace};
use crate::ipc_helpers::names;
use crate::move_window::rows::{FALLBACK_CURRENT_ACTIVITY, FALLBACK_NEW_ACTIVITY,
    FALLBACK_NEW_WORKSPACE, Stage1Choice, Stage2Choice, UNICODE_CURRENT_ACTIVITY,
    UNICODE_NEW_ACTIVITY, UNICODE_NEW_WORKSPACE, annotated, current_mark, current_row, has_unmarked_row,
    label, membership, new_row, new_workspace_row, other_known, other_names, stage1_choice,
    stage1_rows, stage2_choice, workspace_rows};
use crate::move_window::snapshot::{has_name, named};
use crate::picker::PickerOutcome;
use crate::order::{Ranked, lemma_ranked, lemma_ranked_placed, ranked};
use crate::search::{first_where, found, lemma_filter_places, lemma_first_is, lemma_first_where};
use crate::text::{decimal, joined, lemma_decimal_digits, lemma_decimal_injective, lemma_untaken,
    text_at_most, texts, untaken};
use vstd::prelude::*;
use vstd::string::*;

verus! {

/// Whether `c` is a decimal digit.
spec fn is_digit(c: char) -> bool {
    '0' <= c <= '9'
}

/// The label of a workspace ends with its number, or with its number and a
/// bracket.
proof fn lemma_label_end(w: Workspace)
    ensures
        label(w).len() >= 2,
        is_digit(label(w).last()) || (label(w).last() == ')' && is_digit(
            label(w)[label(w).len() - 2],
        )),
{
    reveal_strlit("idx");
    reveal_strlit("id");
    reveal_strlit(" ");
    reveal_strlit(" (");
    reveal_strlit(")");
    let number = if w.is_in_active_activity {
        decimal(w.idx as nat)
    } else {
        decimal(w.id as nat)
    };
    lemma_decimal_digits(w.idx as nat);
    lemma_decimal_digits(w.id as nat);
    let place = if w.is_in_active_activity {
        "idx"@ + " "@ + number
    } else {
        "id"@ + " "@ + number
    };
    assert(place.last() == number.last());
    assert(is_digit(number[number.len() - 1]));
    match w.name {
        Some(name) => {
            assert(label(w) == name@ + " ("@ + place + ")"@);
            assert(label(w).last() == ')');
            assert(label(w)[label(w).len() - 2] == place.last());
        },
        None => {
            assert(label(w) == place);
        },
    }
}

/// How a row without a mark ends.
proof fn lemma_unmarked_end(w: Workspace, target: u64, known: Map<u64, String>)
    ensures
        ({
            let row = annotated(w, target, false, known);
            &&& row.len() >= 2
            &&& is_digit(row.last()) || row.last() == ']' || (row.last() == ')' && is_digit(
                row[row.len() - 2],
            ))
        }),
{
    reveal_strlit(" [sticky]");
    reveal_strlit("]");
    lemma_label_end(w);
    let m = membership(w, target, known);
    let row = annotated(w, target, false, known);
    assert(row =~= label(w) + m);
    if m.len() > 0 {
        assert(m.last() == ']');
        assert(row.last() == m.last());
    } else {
        assert(row =~= label(w));
    }
}

/// How a row with a mark ends.
proof fn lemma_marked_end(w: Workspace, target: u64, known: Map<u64, String>)
    ensures
        ({
            let row = annotated(w, target, true, known);
            &&& row.len() >= 2
            &&& row.last() == ')'
            &&& row[row.len() - 2] == 't'
        }),
{
    reveal_strlit(" (current)");
    let row = annotated(w, target, true, known);
    let mark = current_mark(true);
    assert(mark.len() == 10);
    assert(row.last() == mark.last());
    assert(row[row.len() - 2] == mark[mark.len() - 2]);
}

/// No row that stands for a workspace reads like a row for a new one, whatever
/// labels that was made for.
pub proof fn law_workspace_row_is_not_special(
    w: Workspace,
    target: u64,
    is_current: bool,
    known: Map<u64, String>,
    labels: Seq<Seq<char>>,
)
    ensures
        annotated(w, target, is_current, known) != new_workspace_row(labels),
        label(w) != new_workspace_row(labels),
        label(w) != UNICODE_NEW_WORKSPACE@,
{
    reveal_strlit("« New workspace »");
    reveal_strlit("__niri_activities_new_workspace__");
    lemma_label_end(w);
    lemma_unmarked_end(w, target, known);
    lemma_marked_end(w, target, known);
    lemma_untaken(FALLBACK_NEW_WORKSPACE@, labels);
    assert(UNICODE_NEW_WORKSPACE@.last() == '»');
    assert(FALLBACK_NEW_WORKSPACE@.last() == '_');
}

/// The row for a new workspace differs from every label that it was made for.
pub proof fn law_new_workspace_row_is_distinct(labels: Seq<Seq<char>>)
    ensures
        !labels.contains(new_workspace_row(labels)),
        new_workspace_row(labels) == UNICODE_NEW_WORKSPACE@ <==> !labels.contains(
            UNICODE_NEW_WORKSPACE@,
        ),
{
    lemma_untaken(FALLBACK_NEW_WORKSPACE@, labels);
}

/// A row with the mark of the current workspace is never the unmarked row of
/// any workspace.
pub proof fn law_marked_row_is_not_unmarked(
    a: Workspace,
    b: Workspace,
    target: u64,
    known: Map<u64, String>,
)
    ensures
        annotated(a, target, true, known) != annotated(b, target, false, known),
{
    lemma_marked_end(a, target, known);
    lemma_unmarked_end(b, target, known);
}

/// In a menu of workspaces, the row for a new workspace is the one with
/// angle quotes: no label can be taken for it.
pub proof fn law_new_workspace_row(candidates: Seq<Workspace>)
    ensures
        new_workspace_row(candidates.map_values(|w: Workspace| label(w)))
            == UNICODE_NEW_WORKSPACE@,
{
    let labels = candidates.map_values(|w: Workspace| label(w));
    assert forall|i: int| 0 <= i < labels.len() implies labels[i] != UNICODE_NEW_WORKSPACE@ by {
        law_workspace_row_is_not_special(candidates[i], 0, false, Map::empty(), labels);
    }
}

/// Two workspaces without a name that are labelled by their ids have different
/// labels unless they are the same.
pub proof fn law_hidden_labels_distinct(a: Workspace, b: Workspace)
    requires
        a.name is None,
        b.name is None,
        !a.is_in_active_activity,
        !b.is_in_active_activity,
        a.id != b.id,
    ensures
        label(a) != label(b),
{
    if label(a) == label(b) {
        let prefix = "id"@ + " "@;
        assert(label(a).skip(prefix.len() as int) =~= decimal(a.id as nat));
        assert(label(b).skip(prefix.len() as int) =~= decimal(b.id as nat));
        lemma_decimal_injective(a.id as nat, b.id as nat);
    }
}

/// Whether no two workspaces of the list have the same id.
pub open spec fn ids_distinct(workspaces: Seq<Workspace>) -> bool {
    forall|i: int, j: int|
        0 <= i < j < workspaces.len() ==> (#[trigger] workspaces[i]).id != (
        #[trigger] workspaces[j]).id
}

/// Every row that is offered for a workspace is understood. The row of the
/// workspace which the focus is on means that there is nothing to move; any
/// other row means a workspace with that very row, and where no two rows read
/// the same, the workspace it was made for.
pub proof fn law_offered_workspace_is_understood(
    picked: PickerOutcome,
    sentinel: Seq<char>,
    candidates: Seq<Workspace>,
    focused_id: Option<u64>,
    target: u64,
    known: Map<u64, String>,
    labels: Seq<Seq<char>>,
    i: int,
)
    requires
        ids_distinct(candidates),
        sentinel == new_workspace_row(labels),
        0 <= i < candidates.len(),
        picked matches PickerOutcome::Selected(row) && row@ == workspace_rows(
            candidates,
            focused_id,
            target,
            known,
        )[i],
    ensures
        focused_id == Some(candidates[i].id) ==> stage2_choice(
            picked,
            sentinel,
            candidates,
            focused_id,
            target,
            known,
        ) == Stage2Choice::AlreadyCurrent(candidates[i].id),
        focused_id != Some(candidates[i].id) ==> {
            &&& stage2_choice(picked, sentinel, candidates, focused_id, target, known) is Selected
            &&& ({
                let w = stage2_choice(
                    picked,
                    sentinel,
                    candidates,
                    focused_id,
                    target,
                    known,
                )->Selected_0;
                &&& candidates.contains(w)
                &&& annotated(w, target, false, known) == annotated(
                    candidates[i],
                    target,
                    false,
                    known,
                )
                &&& (forall|j: int|
                    0 <= j < candidates.len() && j != i ==> annotated(
                        #[trigger] candidates[j],
                        target,
                        false,
                        known,
                    ) != annotated(candidates[i], target, false, known)) ==> w == candidates[i]
            })
        },
{
    let w = candidates[i];
    let row = picked->Selected_0@;
    law_workspace_row_is_not_special(w, target, focused_id == Some(w.id), known, labels);
    match focused_id {
        Some(id) => {
            let p = |v: Workspace| v.id == id;
            lemma_first_where(candidates, p);
            if id == w.id {
                assert forall|j: int| 0 <= j < i implies !p(#[trigger] candidates[j]) by {}
                lemma_first_is(candidates, p, i);
            } else {
                match found(candidates, p) {
                    Some(v) => law_marked_row_is_not_unmarked(v, w, target, known),
                    None => {},
                }
            }
        },
        None => {},
    }
    if focused_id != Some(w.id) {
        let q = has_unmarked_row(row, focused_id, target, known);
        lemma_first_where(candidates, q);
        assert(q(candidates[i]));
    }
}

/// The row for a new workspace is understood as such.
pub proof fn law_offered_new_workspace_is_understood(
    picked: PickerOutcome,
    sentinel: Seq<char>,
    candidates: Seq<Workspace>,
    focused_id: Option<u64>,
    target: u64,
    known: Map<u64, String>,
)
    requires
        picked matches PickerOutcome::Selected(row) && row@ == sentinel,
    ensures
        stage2_choice(picked, sentinel, candidates, focused_id, target, known)
            == Stage2Choice::NewWorkspace,
{
}

/// An answer that was not offered, neither as a row nor as the row for a new
/// workspace, is told apart from every choice.
pub proof fn law_row_not_offered_is_unknown(
    picked: PickerOutcome,
    sentinel: Seq<char>,
    candidates: Seq<Workspace>,
    focused_id: Option<u64>,
    target: u64,
    known: Map<u64, String>,
)
    requires
        picked matches PickerOutcome::Selected(row) && row@ != sentinel && !workspace_rows(
            candidates,
            focused_id,
            target,
            known,
        ).contains(row@),
    ensures
        stage2_choice(picked, sentinel, candidates, focused_id, target, known)
            == Stage2Choice::Unknown(picked->Selected_0@),
{
    let row = picked->Selected_0@;
    let rows = workspace_rows(candidates, focused_id, target, known);
    match focused_id {
        Some(id) => {
            let p = |v: Workspace| v.id == id;
            lemma_first_where(candidates, p);
            match first_where(candidates, p) {
                Some(k) => {
                    assert(rows[k] == annotated(candidates[k], target, true, known));
                },
                None => {},
            }
        },
        None => {},
    }
    let q = has_unmarked_row(row, focused_id, target, known);
    lemma_first_where(candidates, q);
    match first_where(candidates, q) {
        Some(k) => {
            assert(rows[k] == annotated(candidates[k], target, false, known));
        },
        None => {},
    }
}

/// The two special rows of the menu of activities never read the same, and
/// neither reads like the name of an activity.
pub proof fn law_special_rows_are_distinct(listed: Seq<Seq<char>>)
    ensures
        current_row(listed) != new_row(listed),
        !listed.contains(current_row(listed)),
        !listed.contains(new_row(listed)),
{
    lemma_untaken(FALLBACK_CURRENT_ACTIVITY@, listed);
    lemma_untaken(FALLBACK_NEW_ACTIVITY@, listed);
    reveal_strlit("« Current activity »");
    reveal_strlit("__niri_activities_current_activity__");
    reveal_strlit("« New activity »");
    reveal_strlit("__niri_activities_new_activity__");
    assert(UNICODE_CURRENT_ACTIVITY@.len() == 20);
    assert(FALLBACK_CURRENT_ACTIVITY@.len() == 36);
    assert(UNICODE_NEW_ACTIVITY@.len() == 16);
    assert(FALLBACK_NEW_ACTIVITY@.len() == 32);
    let current = untaken(FALLBACK_CURRENT_ACTIVITY@, listed);
    let fresh = untaken(FALLBACK_NEW_ACTIVITY@, listed);
    assert(current.take(36)[18] == 'c' && current.take(36)[0] == '_');
    assert(fresh.take(32)[18] == 'n' && fresh.take(32)[0] == '_');
    assert(UNICODE_CURRENT_ACTIVITY@[0] == '«' && UNICODE_NEW_ACTIVITY@[0] == '«');
}

/// Every row of the menu of activities is understood: the first as the active
/// activity, the last as a new one, and one in between as the first activity
/// with that name.
pub proof fn law_offered_activity_is_understood(
    picked: PickerOutcome,
    activities: Seq<Activity>,
    i: int,
)
    requires
        0 <= i < stage1_rows(activities).len(),
        picked matches PickerOutcome::Selected(row) && row@ == stage1_rows(activities)[i],
    ensures
        ({
            let listed = names(activities);
            let choice = stage1_choice(picked, current_row(listed), new_row(listed), activities);
            if i == 0 {
                choice == Stage1Choice::CurrentActivity
            } else if i == activities.len() + 1 {
                choice == Stage1Choice::NewActivity
            } else {
                &&& choice is Selected
                &&& named(activities, activities[i - 1].name@) == Some(choice->Selected_0)
                &&& choice->Selected_0.name@ == activities[i - 1].name@
            }
        }),
{
    let listed = names(activities);
    law_special_rows_are_distinct(listed);
    if 0 < i <= activities.len() {
        let name = activities[i - 1].name@;
        assert(stage1_rows(activities)[i] == listed[i - 1]);
        assert(listed.contains(name)) by {
            assert(listed[i - 1] == name);
        }
        let p = has_name(name);
        lemma_first_where(activities, p);
        assert(p(activities[i - 1]));
    } else if i == 0 {
        assert(stage1_rows(activities)[0] == current_row(listed));
    } else {
        assert(stage1_rows(activities)[i] == new_row(listed));
    }
}

/// An answer that is no row of the menu of activities is told apart from every
/// choice.
pub proof fn law_activity_not_offered_is_unknown(picked: PickerOutcome, activities: Seq<Activity>)
    requires
        picked matches PickerOutcome::Selected(row) && !stage1_rows(activities).contains(row@),
    ensures
        stage1_choice(
            picked,
            current_row(names(activities)),
            new_row(names(activities)),
            activities,
        ) == Stage1Choice::Unknown(picked->Selected_0@),
{
    let row = picked->Selected_0@;
    let listed = names(activities);
    let rows = stage1_rows(activities);
    assert(rows[0] == current_row(listed));
    assert(rows[activities.len() as int + 1] == new_row(listed));
    let p = has_name(row);
    lemma_first_where(activities, p);
    match first_where(activities, p) {
        Some(k) => {
            assert(rows[k + 1] == listed[k]);
        },
        None => {},
    }
}

/// Whether a workspace belongs to another activity than `target`, and one whose
/// name is known to be `name`.
pub open spec fn is_also_in(
    w: Workspace,
    target: u64,
    known: Map<u64, String>,
    name: Seq<char>,
) -> bool {
    exists|id: u64| #[trigger]
        w.activities@.contains(id) && id != target && known.contains_key(id) && known[id]@ == name
}

/// A row says of a sticky workspace that it is, and of any other that belongs to
/// several activities which other ones those are: all of them whose names are
/// known, in alphabetical order. Of a workspace without such activities it says
/// nothing.
pub proof fn law_row_lists_the_other_activities(w: Workspace, target: u64, known: Map<u64, String>)
    ensures
        w.is_sticky ==> membership(w, target, known) == " [sticky]"@,
        !w.is_sticky && (w.activities@.len() <= 1 || forall|name: Seq<char>|
            !#[trigger] is_also_in(w, target, known, name)) ==> membership(w, target, known).len()
            == 0,
        !w.is_sticky && w.activities@.len() > 1 && (exists|name: Seq<char>| #[trigger]
            is_also_in(w, target, known, name)) ==> exists|others: Seq<Seq<char>>| {
            &&& membership(w, target, known) == " [also in: "@ + #[trigger] joined(others, ", "@)
                + "]"@
            &&& forall|name: Seq<char>| #[trigger]
                others.contains(name) <==> is_also_in(w, target, known, name)
            &&& forall|i: int, j: int|
                0 <= i < j < others.len() ==> text_at_most(#[trigger] others[i], #[trigger] others[j])
        },
{
    broadcast use vstd::seq_lib::group_to_multiset_ensures;

    let p = other_known(target, known);
    let ids = w.activities@;
    let kept = ids.filter(p);
    let unsorted = other_names(w, target, known);
    let sorted = ranked(unsorted);
    let others = texts(sorted);
    let places = lemma_filter_places(ids, p);
    lemma_ranked(unsorted);
    let by_rank = lemma_ranked_placed(unsorted);
    assert forall|name: Seq<char>| #[trigger] others.contains(name) <==> is_also_in(
        w,
        target,
        known,
        name,
    ) by {
        if others.contains(name) {
            let h = choose|h: int| 0 <= h < others.len() && others[h] == name;
            let g = by_rank[h];
            assert(sorted[h] == unsorted[g]);
            let id = kept[g];
            assert(unsorted[g] == known[id]);
            assert(places.contains(places[g]));
            assert(p(ids[places[g]]));
            assert(ids.contains(id));
        }
        if is_also_in(w, target, known, name) {
            let id = choose|id: u64| #[trigger]
                ids.contains(id) && id != target && known.contains_key(id) && known[id]@ == name;
            let k = choose|k: int| 0 <= k < ids.len() && ids[k] == id;
            assert(p(ids[k]));
            assert(places.contains(k));
            let g = choose|g: int| 0 <= g < places.len() && places[g] == k;
            assert(kept[g] == id);
            assert(unsorted[g] == known[id]);
            assert(by_rank.contains(g));
            let h = choose|h: int| 0 <= h < by_rank.len() && by_rank[h] == g;
            assert(sorted[h] == unsorted[g]);
            assert(others[h] == name);
        }
    }
    assert forall|i: int, j: int| 0 <= i < j < others.len() implies text_at_most(
        #[trigger] others[i],
        #[trigger] others[j],
    ) by {
        assert(sorted[i].at_most(&sorted[j]));
    }
    if unsorted.len() > 0 {
        assert(others.contains(others[0]));
        assert(is_also_in(w, target, known, others[0]));
        if !w.is_sticky && w.activities@.len() > 1 {
            assert(membership(w, target, known) == " [also in: "@ + joined(others, ", "@) + "]"@);
        }
    } else {
        assert(others.len() == 0);
        assert forall|name: Seq<char>| !#[trigger] is_also_in(w, target, known, name) by {
            assert(!others.contains(name));
        }
    }
}

/// The alphabetical order goes by the first character in which two texts differ; a
/// text comes before any other that begins with it.
pub proof fn law_alphabetical_order(a: Seq<char>, b: Seq<char>, k: int)
    requires
        0 <= k <= a.len(),
        k <= b.len(),
        a.take(k) == b.take(k),
        k == a.len() || k == b.len() || a[k] != b[k],
    ensures
        text_at_most(a, b) <==> k == a.len() || (k < b.len() && a[k] < b[k]),
    decreases k,
{
    if k > 0 {
        assert(a[0] == a.take(k)[0] && b[0] == b.take(k)[0]);
        let x = a.drop_first();
        let y = b.drop_first();
        assert(x.take(k - 1) =~= a.take(k).drop_first());
        assert(y.take(k - 1) =~= b.take(k).drop_first());
        law_alphabetical_order(x, y, k - 1);
    }
}

/// Each special row of the menu of activities has its own form unless an activity
/// has that name, whatever becomes of the other; where one has, the other form
/// begins it.
pub proof fn law_special_rows_prefer_their_form(listed: Seq<Seq<char>>)
    ensures
        !listed.contains("« Current activity »"@) ==> current_row(listed)
            == "« Current activity »"@,
        listed.contains("« Current activity »"@) ==> current_row(listed).len() >= 36
            && current_row(listed).take(36) == "__niri_activities_current_activity__"@,
        !listed.contains("« New activity »"@) ==> new_row(listed) == "« New activity »"@,
        listed.contains("« New activity »"@) ==> new_row(listed).len() >= 32 && new_row(listed).take(
            32,
        ) == "__niri_activities_new_activity__"@,
{
    reveal_strlit("__niri_activities_current_activity__");
    reveal_strlit("__niri_activities_new_activity__");
    lemma_untaken(FALLBACK_CURRENT_ACTIVITY@, listed);
    lemma_untaken(FALLBACK_NEW_ACTIVITY@, listed);
    assert(FALLBACK_CURRENT_ACTIVITY@.len() == 36);
    assert(FALLBACK_NEW_ACTIVITY@.len() == 32);
}

/// A workspace is labelled by its position where it is in the active activity, and
/// by its id elsewhere, with its name before that where it has one. Its row begins
/// with the label and ends with a mark if and only if the focus is on it.
pub proof fn law_row_begins_with_the_label(
    w: Workspace,
    target: u64,
    is_current: bool,
    known: Map<u64, String>,
)
    ensures
        ({
            let place = if w.is_in_active_activity {
                "idx "@ + decimal(w.idx as nat)
            } else {
                "id "@ + decimal(w.id as nat)
            };
            match w.name {
                Some(name) => label(w) == name@ + " ("@ + place + ")"@,
                None => label(w) == place,
            }
        }),
        annotated(w, target, is_current, known).take(label(w).len() as int) == label(w),
        annotated(w, target, true, known) == annotated(w, target, false, known) + " (current)"@,
        ends_with(annotated(w, target, is_current, known), " (current)"@) <==> is_current,
{
    reveal_strlit("idx");
    reveal_strlit("idx ");
    reveal_strlit("id");
    reveal_strlit("id ");
    reveal_strlit(" ");
    reveal_strlit(" (current)");
    assert("idx"@ + " "@ =~= "idx "@);
    assert("id"@ + " "@ =~= "id "@);
    let row = annotated(w, target, is_current, known);
    assert(row.take(label(w).len() as int) =~= label(w));
    assert(annotated(w, target, true, known) =~= annotated(w, target, false, known) + " (current)"@);
    let mark = " (current)"@;
    if is_current {
        assert(row.skip(row.len() - mark.len()) =~= mark);
    } else {
        lemma_unmarked_end(w, target, known);
        if ends_with(row, mark) {
            let tail = row.skip(row.len() - mark.len());
            assert(row.last() == tail.last());
            assert(row[row.len() - 2] == tail[tail.len() - 2]);
        }
    }
}

} // verus!
