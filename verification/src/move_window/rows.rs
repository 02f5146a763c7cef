//! The rows of the two menus, and what a chosen row stands for.

use crate::ipc::{Activity, Workspace};
use crate::ipc_helpers::names;
use crate::move_window::snapshot::{find_named, named};
use crate::order::{ranked, sort_ranked};
use crate::picker::PickerOutcome;
use crate::search::{found, lemma_first_is, lemma_first_none};
use crate::text::{copied_from, decimal, decimal_text, has_slice, join_texts, joined, lemma_untaken,
    slices, str_eq, texts, untaken, untaken_text};
use std::collections::HashMap;
use vstd::prelude::*;
use vstd::string::*;

verus! {

// ---- Special rows ----------------------------------------------------------

/// The row that stands for the active activity.
pub const UNICODE_CURRENT_ACTIVITY: &'static str = "« Current activity »";

/// The same, where an activity has that name.
pub const FALLBACK_CURRENT_ACTIVITY: &'static str = "__niri_activities_current_activity__";

/// The row that stands for an activity yet to be created.
pub const UNICODE_NEW_ACTIVITY: &'static str = "« New activity »";

/// The same, where an activity has that name.
pub const FALLBACK_NEW_ACTIVITY: &'static str = "__niri_activities_new_activity__";

/// The row that stands for the empty workspace at the end.
pub const UNICODE_NEW_WORKSPACE: &'static str = "« New workspace »";

/// The same, where a workspace is labelled so.
pub const FALLBACK_NEW_WORKSPACE: &'static str = "__niri_activities_new_workspace__";

/// The special rows of the menu of activities.
#[derive(Debug)]
pub struct Stage1Sentinels {
    pub current: String,
    pub new_activity: String,
}

/// A special row among other rows: its preferred form; where that is taken, its
/// other form, with as many underscores behind it as make it one of a kind.
pub open spec fn special_row(
    preferred: Seq<char>,
    fallback: Seq<char>,
    taken: Seq<Seq<char>>,
) -> Seq<char> {
    if taken.contains(preferred) {
        untaken(fallback, taken)
    } else {
        preferred
    }
}

/// A special row among other rows.
fn special_text(preferred: &str, fallback: &str, taken: &[&str]) -> (r: String)
    ensures
        r@ == special_row(preferred@, fallback@, slices(taken@)),
{
    if has_slice(taken, preferred) {
        untaken_text(fallback, taken)
    } else {
        preferred.to_owned()
    }
}

/// The row that stands for the active activity, among the given names.
pub open spec fn current_row(names: Seq<Seq<char>>) -> Seq<char> {
    special_row(UNICODE_CURRENT_ACTIVITY@, FALLBACK_CURRENT_ACTIVITY@, names)
}

/// The row that stands for a new activity, among the given names.
pub open spec fn new_row(names: Seq<Seq<char>>) -> Seq<char> {
    special_row(UNICODE_NEW_ACTIVITY@, FALLBACK_NEW_ACTIVITY@, names)
}

/// The special rows among the given names, which differ from all of them. Each
/// falls back on its own.
pub fn sentinel_names(activity_names: &[&str]) -> (r: Stage1Sentinels)
    ensures
        r.current@ == current_row(slices(activity_names@)),
        r.new_activity@ == new_row(slices(activity_names@)),
        !slices(activity_names@).contains(r.current@),
        !slices(activity_names@).contains(r.new_activity@),
{
    proof {
        lemma_untaken(FALLBACK_CURRENT_ACTIVITY@, slices(activity_names@));
        lemma_untaken(FALLBACK_NEW_ACTIVITY@, slices(activity_names@));
    }
    Stage1Sentinels {
        current: special_text(UNICODE_CURRENT_ACTIVITY, FALLBACK_CURRENT_ACTIVITY, activity_names),
        new_activity: special_text(UNICODE_NEW_ACTIVITY, FALLBACK_NEW_ACTIVITY, activity_names),
    }
}

/// The row that stands for a new workspace, among the given labels.
pub open spec fn new_workspace_row(labels: Seq<Seq<char>>) -> Seq<char> {
    special_row(UNICODE_NEW_WORKSPACE@, FALLBACK_NEW_WORKSPACE@, labels)
}

/// The row that stands for a new workspace, among the given labels, from all of
/// which it differs.
pub fn workspace_sentinel_names(workspace_labels: &[&str]) -> (r: String)
    ensures
        r@ == new_workspace_row(slices(workspace_labels@)),
        !slices(workspace_labels@).contains(r@),
{
    proof {
        lemma_untaken(FALLBACK_NEW_WORKSPACE@, slices(workspace_labels@));
    }
    special_text(UNICODE_NEW_WORKSPACE, FALLBACK_NEW_WORKSPACE, workspace_labels)
}

// ---- Labels of workspaces --------------------------------------------------

/// How a workspace is labelled: by its position in the active activity, where
/// positions mean something, and by its id elsewhere.
pub open spec fn label(w: Workspace) -> Seq<char> {
    let place = if w.is_in_active_activity {
        "idx"@ + " "@ + decimal(w.idx as nat)
    } else {
        "id"@ + " "@ + decimal(w.id as nat)
    };
    match w.name {
        Some(name) => name@ + " ("@ + place + ")"@,
        None => place,
    }
}

/// How a workspace is labelled.
pub fn workspace_label(ws: &Workspace) -> (r: String)
    ensures
        r@ == label(*ws),
{
    let mut place = (if ws.is_in_active_activity {
        "idx"
    } else {
        "id"
    }).to_owned();
    let value: u64 = if ws.is_in_active_activity {
        ws.idx as u64
    } else {
        ws.id
    };
    place.append(" ");
    place.append(decimal_text(value).as_str());
    match &ws.name {
        Some(name) => {
            let mut s = name.clone();
            s.append(" (");
            s.append(place.as_str());
            s.append(")");
            s
        },
        None => place,
    }
}

/// Whether an activity is another one than `target` and has a known name.
pub open spec fn other_known(target: u64, names: Map<u64, String>) -> spec_fn(u64) -> bool {
    |id: u64| id != target && names.contains_key(id)
}

/// The name of an activity.
pub open spec fn name_in(names: Map<u64, String>) -> spec_fn(u64) -> String {
    |id: u64| names[id]
}

/// The names of the other activities that a workspace belongs to, in the order
/// of its list; activities without a known name are left out.
pub open spec fn other_names(w: Workspace, target: u64, names: Map<u64, String>) -> Seq<String> {
    w.activities@.filter(other_known(target, names)).map_values(name_in(names))
}

/// What is said of a workspace that belongs to several activities.
pub open spec fn membership(w: Workspace, target: u64, names: Map<u64, String>) -> Seq<char> {
    if w.is_sticky {
        " [sticky]"@
    } else if w.activities@.len() > 1 && other_names(w, target, names).len() > 0 {
        " [also in: "@ + joined(texts(ranked(other_names(w, target, names))), ", "@) + "]"@
    } else {
        Seq::empty()
    }
}

/// What is said of the workspace that the focus is on.
pub open spec fn current_mark(is_current: bool) -> Seq<char> {
    if is_current {
        " (current)"@
    } else {
        Seq::empty()
    }
}

/// A row of the menu of workspaces: the label, then what other activities the
/// workspace belongs to, then whether the focus is on it.
pub open spec fn annotated(
    w: Workspace,
    target: u64,
    is_current: bool,
    names: Map<u64, String>,
) -> Seq<char> {
    label(w) + membership(w, target, names) + current_mark(is_current)
}

/// References to the names of the other activities of a workspace.
fn collect_other_names<'a>(
    ws: &Workspace,
    target_activity_id: u64,
    activity_names: &'a HashMap<u64, String>,
) -> (r: Vec<&'a String>)
    ensures
        r@.unref() == other_names(*ws, target_activity_id, activity_names@),
{
    broadcast use vstd::std_specs::hash::group_hash_axioms;

    let ghost known = activity_names@;
    let ghost p = other_known(target_activity_id, known);
    let ghost f = name_in(known);
    let mut out: Vec<&'a String> = Vec::new();
    let mut i: usize = 0;
    proof {
        reveal(Seq::filter);
        assert(out@.unref() =~= ws.activities@.take(0).filter(p).map_values(f));
    }
    while i < ws.activities.len()
        invariant
            i <= ws.activities@.len(),
            known == activity_names@,
            p == other_known(target_activity_id, known),
            f == name_in(known),
            out@.unref() == ws.activities@.take(i as int).filter(p).map_values(f),
        decreases ws.activities@.len() - i,
    {
        let id: u64 = ws.activities[i];
        let ghost before = out@;
        if id != target_activity_id {
            match activity_names.get(&id) {
                Some(name) => {
                    out.push(name);
                },
                None => {},
            }
        }
        proof {
            let next = ws.activities@.take(i + 1);
            assert(next.drop_last() =~= ws.activities@.take(i as int));
            assert(next.last() == id);
            reveal(Seq::filter);
            if p(id) {
                assert(out@.unref() =~= before.unref().push(known[id]));
                assert(next.filter(p).map_values(f) =~= next.drop_last().filter(p).map_values(
                    f,
                ).push(known[id]));
            }
        }
        i = i + 1;
    }
    proof {
        assert(ws.activities@.take(i as int) =~= ws.activities@);
    }
    out
}

/// A row of the menu of workspaces.
pub fn workspace_label_with_annotations(
    ws: &Workspace,
    target_activity_id: u64,
    is_current: bool,
    activity_names: &HashMap<u64, String>,
) -> (r: String)
    ensures
        r@ == annotated(*ws, target_activity_id, is_current, activity_names@),
{
    let mut s = workspace_label(ws);
    let ghost base = s@;
    if ws.is_sticky {
        s.append(" [sticky]");
    } else if ws.activities.len() > 1 {
        let others = collect_other_names(ws, target_activity_id, activity_names);
        if others.len() > 0 {
            let sorted = copied_from(&sort_ranked(&others));
            let list = join_texts(&sorted, ", ");
            s.append(" [also in: ");
            s.append(list.as_str());
            s.append("]");
            proof {
                assert(others@.unref().len() == others@.len());
                assert(s@ =~= base + (" [also in: "@ + list@ + "]"@));
            }
        } else {
            proof {
                assert(others@.unref().len() == 0);
                assert(s@ =~= base + Seq::<char>::empty());
            }
        }
    } else {
        proof {
            assert(s@ =~= base + Seq::<char>::empty());
        }
    }
    let ghost full = s@;
    if is_current {
        s.append(" (current)");
    } else {
        proof {
            assert(s@ =~= full + Seq::<char>::empty());
        }
    }
    s
}

// ---- Composing the menus ---------------------------------------------------

/// The rows of the menu of activities: the special ones first and last, the
/// names between them in the order of the list.
pub open spec fn stage1_rows(activities: Seq<Activity>) -> Seq<Seq<char>> {
    let listed = names(activities);
    seq![current_row(listed)] + listed + seq![new_row(listed)]
}

/// The rows of the menu of activities.
pub fn compose_stage1_items(activities: &Vec<Activity>, sentinels: &Stage1Sentinels) -> (r: Vec<
    String,
>)
    ensures
        texts(r@) == seq![sentinels.current@] + names(activities@) + seq![sentinels.new_activity@],
{
    let mut out: Vec<String> = Vec::new();
    out.push(sentinels.current.clone());
    let mut i: usize = 0;
    proof {
        assert(texts(out@) =~= seq![sentinels.current@] + names(activities@.take(0)));
    }
    while i < activities.len()
        invariant
            i <= activities@.len(),
            texts(out@) == seq![sentinels.current@] + names(activities@.take(i as int)),
        decreases activities@.len() - i,
    {
        let ghost before = out@;
        out.push(activities[i].name.clone());
        proof {
            let name = activities@[i as int].name@;
            assert(texts(out@) =~= texts(before).push(name));
            assert(names(activities@.take(i + 1)) =~= names(activities@.take(i as int)).push(name));
            assert(seq![sentinels.current@] + names(activities@.take(i as int)).push(name) =~= (seq![
                sentinels.current@,
            ] + names(activities@.take(i as int))).push(name));
        }
        i = i + 1;
    }
    let ghost before = out@;
    out.push(sentinels.new_activity.clone());
    proof {
        assert(activities@.take(i as int) =~= activities@);
        assert(texts(out@) =~= texts(before).push(sentinels.new_activity@));
        assert(texts(out@) =~= seq![sentinels.current@] + names(activities@) + seq![
            sentinels.new_activity@,
        ]);
    }
    out
}

/// The rows of the menu of workspaces that stand for existing ones.
pub open spec fn workspace_rows(
    workspaces: Seq<Workspace>,
    focused_id: Option<u64>,
    target: u64,
    names: Map<u64, String>,
) -> Seq<Seq<char>> {
    workspaces.map_values(
        |w: Workspace| annotated(w, target, focused_id == Some(w.id), names),
    )
}

/// The rows of the menu of workspaces that stand for existing ones.
pub fn compose_stage2_items_literal_only(
    workspaces: &Vec<&Workspace>,
    focused_workspace_id: Option<u64>,
    target_activity_id: u64,
    activity_names: &HashMap<u64, String>,
) -> (r: Vec<String>)
    ensures
        texts(r@) == workspace_rows(
            workspaces@.unref(),
            focused_workspace_id,
            target_activity_id,
            activity_names@,
        ),
{
    let mut out: Vec<String> = Vec::new();
    let mut i: usize = 0;
    let ghost all = workspaces@.unref();
    let ghost known = activity_names@;
    while i < workspaces.len()
        invariant
            i <= workspaces@.len(),
            all == workspaces@.unref(),
            known == activity_names@,
            out@.len() == i,
            forall|j: int|
                0 <= j < i ==> (#[trigger] out@[j])@ == annotated(
                    all[j],
                    target_activity_id,
                    focused_workspace_id == Some(all[j].id),
                    known,
                ),
        decreases workspaces@.len() - i,
    {
        let w = workspaces[i];
        let is_current = match focused_workspace_id {
            Some(id) => id == w.id,
            None => false,
        };
        out.push(
            workspace_label_with_annotations(w, target_activity_id, is_current, activity_names),
        );
        i = i + 1;
    }
    proof {
        assert(texts(out@) =~= workspace_rows(all, focused_workspace_id, target_activity_id, known));
    }
    out
}

/// The rows of the menu of workspaces, with a new one offered last.
pub fn compose_stage2_items_with_new(
    workspaces: &Vec<&Workspace>,
    focused_workspace_id: Option<u64>,
    sentinel: &str,
    target_activity_id: u64,
    activity_names: &HashMap<u64, String>,
) -> (r: Vec<String>)
    ensures
        texts(r@) == workspace_rows(
            workspaces@.unref(),
            focused_workspace_id,
            target_activity_id,
            activity_names@,
        ).push(sentinel@),
{
    let mut out = compose_stage2_items_literal_only(
        workspaces,
        focused_workspace_id,
        target_activity_id,
        activity_names,
    );
    let ghost before = out@;
    out.push(sentinel.to_owned());
    proof {
        assert(texts(out@) =~= texts(before).push(sentinel@));
    }
    out
}

// ---- Reading a choice ------------------------------------------------------

/// What a row of the menu of activities stands for.
#[derive(Debug)]
pub enum Stage1Resolution<'a> {
    CurrentActivity,
    NewActivity,
    Selected(&'a Activity),
    Cancelled,
    /// The row is not one of the menu.
    Unknown(String),
}

/// What a [`Stage1Resolution`] holds.
pub enum Stage1Choice {
    CurrentActivity,
    NewActivity,
    Selected(Activity),
    Cancelled,
    Unknown(Seq<char>),
}

impl<'a> View for Stage1Resolution<'a> {
    type V = Stage1Choice;

    open spec fn view(&self) -> Stage1Choice {
        match self {
            Stage1Resolution::CurrentActivity => Stage1Choice::CurrentActivity,
            Stage1Resolution::NewActivity => Stage1Choice::NewActivity,
            Stage1Resolution::Selected(a) => Stage1Choice::Selected(**a),
            Stage1Resolution::Cancelled => Stage1Choice::Cancelled,
            Stage1Resolution::Unknown(row) => Stage1Choice::Unknown(row@),
        }
    }
}

/// What a row of the menu of activities stands for, given the special rows.
pub open spec fn stage1_choice(
    picked: PickerOutcome,
    current: Seq<char>,
    new_activity: Seq<char>,
    activities: Seq<Activity>,
) -> Stage1Choice {
    match picked {
        PickerOutcome::Cancelled => Stage1Choice::Cancelled,
        PickerOutcome::Selected(row) => if row@ == current {
            Stage1Choice::CurrentActivity
        } else if row@ == new_activity {
            Stage1Choice::NewActivity
        } else {
            match named(activities, row@) {
                Some(a) => Stage1Choice::Selected(a),
                None => Stage1Choice::Unknown(row@),
            }
        },
    }
}

/// Reads the choice of an activity.
pub fn resolve_stage1<'a>(
    picked: PickerOutcome,
    sentinels: &Stage1Sentinels,
    activities: &'a Vec<Activity>,
) -> (r: Stage1Resolution<'a>)
    ensures
        r@ == stage1_choice(picked, sentinels.current@, sentinels.new_activity@, activities@),
{
    match picked {
        PickerOutcome::Cancelled => Stage1Resolution::Cancelled,
        PickerOutcome::Selected(row) => {
            if str_eq(row.as_str(), sentinels.current.as_str()) {
                Stage1Resolution::CurrentActivity
            } else if str_eq(row.as_str(), sentinels.new_activity.as_str()) {
                Stage1Resolution::NewActivity
            } else {
                match find_named(activities, row.as_str()) {
                    Some(a) => Stage1Resolution::Selected(a),
                    None => Stage1Resolution::Unknown(row),
                }
            }
        },
    }
}

/// What a row of the menu of workspaces stands for, where a new workspace is
/// offered.
#[derive(Debug)]
pub enum Stage2ResolutionWithNew<'a> {
    NewWorkspace,
    Selected(&'a Workspace),
    /// The focus is on that workspace already.
    AlreadyCurrent(u64),
    Cancelled,
    /// The row is not one of the menu.
    Unknown(String),
}

/// What a row of the menu of workspaces stands for, where no new workspace is
/// offered. A menu program that answers with the row for one nonetheless is
/// told apart from one that answers with any other row.
#[derive(Debug)]
pub enum Stage2ResolutionLiteralOnly<'a> {
    NewWorkspace,
    Selected(&'a Workspace),
    /// The focus is on that workspace already.
    AlreadyCurrent(u64),
    Cancelled,
    /// The row is not one of the menu.
    Unknown(String),
}

/// What the choice of a workspace holds.
pub enum Stage2Choice {
    NewWorkspace,
    Selected(Workspace),
    AlreadyCurrent(u64),
    Cancelled,
    Unknown(Seq<char>),
}

impl<'a> View for Stage2ResolutionWithNew<'a> {
    type V = Stage2Choice;

    open spec fn view(&self) -> Stage2Choice {
        match self {
            Stage2ResolutionWithNew::NewWorkspace => Stage2Choice::NewWorkspace,
            Stage2ResolutionWithNew::Selected(w) => Stage2Choice::Selected(**w),
            Stage2ResolutionWithNew::AlreadyCurrent(id) => Stage2Choice::AlreadyCurrent(*id),
            Stage2ResolutionWithNew::Cancelled => Stage2Choice::Cancelled,
            Stage2ResolutionWithNew::Unknown(row) => Stage2Choice::Unknown(row@),
        }
    }
}

impl<'a> View for Stage2ResolutionLiteralOnly<'a> {
    type V = Stage2Choice;

    open spec fn view(&self) -> Stage2Choice {
        match self {
            Stage2ResolutionLiteralOnly::NewWorkspace => Stage2Choice::NewWorkspace,
            Stage2ResolutionLiteralOnly::Selected(w) => Stage2Choice::Selected(**w),
            Stage2ResolutionLiteralOnly::AlreadyCurrent(id) => Stage2Choice::AlreadyCurrent(*id),
            Stage2ResolutionLiteralOnly::Cancelled => Stage2Choice::Cancelled,
            Stage2ResolutionLiteralOnly::Unknown(row) => Stage2Choice::Unknown(row@),
        }
    }
}

/// Whether `row` is that of the workspace which the focus is on.
pub open spec fn is_current_row(
    row: Seq<char>,
    candidates: Seq<Workspace>,
    focused_id: Option<u64>,
    target: u64,
    names: Map<u64, String>,
) -> bool {
    match focused_id {
        None => false,
        Some(id) => match found(candidates, |w: Workspace| w.id == id) {
            None => false,
            Some(w) => row == annotated(w, target, true, names),
        },
    }
}

/// Whether `row` is the row that a workspace is offered by, and the focus is
/// elsewhere.
pub open spec fn has_unmarked_row(
    row: Seq<char>,
    focused_id: Option<u64>,
    target: u64,
    names: Map<u64, String>,
) -> spec_fn(Workspace) -> bool {
    |w: Workspace| focused_id != Some(w.id) && annotated(w, target, false, names) == row
}

/// The workspace that an unmarked row stands for. The one which the focus is on
/// is offered with a mark only.
pub open spec fn workspace_of_row(
    row: Seq<char>,
    candidates: Seq<Workspace>,
    focused_id: Option<u64>,
    target: u64,
    names: Map<u64, String>,
) -> Option<Workspace> {
    found(candidates, has_unmarked_row(row, focused_id, target, names))
}

/// What a row of the menu of workspaces stands for, given the special row.
pub open spec fn stage2_choice(
    picked: PickerOutcome,
    sentinel: Seq<char>,
    candidates: Seq<Workspace>,
    focused_id: Option<u64>,
    target: u64,
    names: Map<u64, String>,
) -> Stage2Choice {
    match picked {
        PickerOutcome::Cancelled => Stage2Choice::Cancelled,
        PickerOutcome::Selected(row) => if row@ == sentinel {
            Stage2Choice::NewWorkspace
        } else if is_current_row(row@, candidates, focused_id, target, names) {
            Stage2Choice::AlreadyCurrent(focused_id->0)
        } else {
            match workspace_of_row(row@, candidates, focused_id, target, names) {
                Some(w) => Stage2Choice::Selected(w),
                None => Stage2Choice::Unknown(row@),
            }
        },
    }
}

/// Decides whether `row` is that of the workspace which the focus is on.
fn matches_current(
    row: &str,
    candidates: &Vec<&Workspace>,
    focused_workspace_id: Option<u64>,
    target_activity_id: u64,
    activity_names: &HashMap<u64, String>,
) -> (r: bool)
    ensures
        r == is_current_row(
            row@,
            candidates@.unref(),
            focused_workspace_id,
            target_activity_id,
            activity_names@,
        ),
{
    match focused_workspace_id {
        None => false,
        Some(id) => {
            let ghost all = candidates@.unref();
            let ghost p = |w: Workspace| w.id == id;
            let mut i: usize = 0;
            while i < candidates.len()
                invariant
                    i <= candidates@.len(),
                    all == candidates@.unref(),
                    p == (|w: Workspace| w.id == id),
                    focused_workspace_id == Some(id),
                    forall|j: int| 0 <= j < i ==> !p(#[trigger] all[j]),
                decreases candidates@.len() - i,
            {
                proof {
                    assert(all[i as int] == *candidates@[i as int]);
                }
                if candidates[i].id == id {
                    proof {
                        lemma_first_is(all, p, i as int);
                    }
                    let full = workspace_label_with_annotations(
                        candidates[i],
                        target_activity_id,
                        true,
                        activity_names,
                    );
                    return str_eq(row, full.as_str());
                }
                i = i + 1;
            }
            proof {
                lemma_first_none(all, p);
            }
            false
        },
    }
}

/// Finds the workspace that an unmarked row stands for.
fn find_row<'a>(
    row: &str,
    candidates: &Vec<&'a Workspace>,
    focused_workspace_id: Option<u64>,
    target_activity_id: u64,
    activity_names: &HashMap<u64, String>,
) -> (r: Option<&'a Workspace>)
    ensures
        match r {
            Some(w) => workspace_of_row(
                row@,
                candidates@.unref(),
                focused_workspace_id,
                target_activity_id,
                activity_names@,
            ) == Some(*w),
            None => workspace_of_row(
                row@,
                candidates@.unref(),
                focused_workspace_id,
                target_activity_id,
                activity_names@,
            ) is None,
        },
{
    let ghost all = candidates@.unref();
    let ghost known = activity_names@;
    let ghost p = has_unmarked_row(row@, focused_workspace_id, target_activity_id, known);
    let mut i: usize = 0;
    while i < candidates.len()
        invariant
            i <= candidates@.len(),
            all == candidates@.unref(),
            known == activity_names@,
            p == has_unmarked_row(row@, focused_workspace_id, target_activity_id, known),
            forall|j: int| 0 <= j < i ==> !p(#[trigger] all[j]),
        decreases candidates@.len() - i,
    {
        proof {
            assert(all[i as int] == *candidates@[i as int]);
        }
        let is_current = match focused_workspace_id {
            Some(id) => id == candidates[i].id,
            None => false,
        };
        let full = workspace_label_with_annotations(
            candidates[i],
            target_activity_id,
            false,
            activity_names,
        );
        if !is_current && str_eq(full.as_str(), row) {
            proof {
                lemma_first_is(all, p, i as int);
            }
            return Some(candidates[i]);
        }
        i = i + 1;
    }
    proof {
        lemma_first_none(all, p);
    }
    None
}

/// Reads the choice of a workspace from a menu that offers a new one.
pub fn resolve_stage2_with_new<'a>(
    picked: PickerOutcome,
    sentinel: &str,
    candidates: &Vec<&'a Workspace>,
    focused_workspace_id: Option<u64>,
    target_activity_id: u64,
    activity_names: &HashMap<u64, String>,
) -> (r: Stage2ResolutionWithNew<'a>)
    ensures
        r@ == stage2_choice(
            picked,
            sentinel@,
            candidates@.unref(),
            focused_workspace_id,
            target_activity_id,
            activity_names@,
        ),
{
    match picked {
        PickerOutcome::Cancelled => Stage2ResolutionWithNew::Cancelled,
        PickerOutcome::Selected(row) => {
            if str_eq(row.as_str(), sentinel) {
                return Stage2ResolutionWithNew::NewWorkspace;
            }
            match focused_workspace_id {
                Some(id) => {
                    if matches_current(
                        row.as_str(),
                        candidates,
                        focused_workspace_id,
                        target_activity_id,
                        activity_names,
                    ) {
                        return Stage2ResolutionWithNew::AlreadyCurrent(id);
                    }
                },
                None => {},
            }
            match find_row(
                row.as_str(),
                candidates,
                focused_workspace_id,
                target_activity_id,
                activity_names,
            ) {
                Some(w) => Stage2ResolutionWithNew::Selected(w),
                None => Stage2ResolutionWithNew::Unknown(row),
            }
        },
    }
}

/// Reads the choice of a workspace from a menu that offers no new one.
pub fn resolve_stage2_literal_only<'a>(
    picked: PickerOutcome,
    sentinel: &str,
    candidates: &Vec<&'a Workspace>,
    focused_workspace_id: Option<u64>,
    target_activity_id: u64,
    activity_names: &HashMap<u64, String>,
) -> (r: Stage2ResolutionLiteralOnly<'a>)
    ensures
        r@ == stage2_choice(
            picked,
            sentinel@,
            candidates@.unref(),
            focused_workspace_id,
            target_activity_id,
            activity_names@,
        ),
{
    match picked {
        PickerOutcome::Cancelled => Stage2ResolutionLiteralOnly::Cancelled,
        PickerOutcome::Selected(row) => {
            if str_eq(row.as_str(), sentinel) {
                return Stage2ResolutionLiteralOnly::NewWorkspace;
            }
            match focused_workspace_id {
                Some(id) => {
                    if matches_current(
                        row.as_str(),
                        candidates,
                        focused_workspace_id,
                        target_activity_id,
                        activity_names,
                    ) {
                        return Stage2ResolutionLiteralOnly::AlreadyCurrent(id);
                    }
                },
                None => {},
            }
            match find_row(
                row.as_str(),
                candidates,
                focused_workspace_id,
                target_activity_id,
                activity_names,
            ) {
                Some(w) => Stage2ResolutionLiteralOnly::Selected(w),
                None => Stage2ResolutionLiteralOnly::Unknown(row),
            }
        },
    }
}

} // verus!
