//! Reading replies, and the lists of names that several menus share.

use crate::cli::Order;
use crate::error::{CliError, CliErrorView, MalformedResponseSource, MalformedResponseSourceView};
use crate::ipc::{Activity, IpcError, NoOpReason, Reply, Response, Window, Workspace};
use crate::order::{Ranked, inserted, lemma_ranked, of_rank, ranked, sort_ranked};
use crate::search::{first_where, lemma_first_is, lemma_first_none, lemma_first_where};
use crate::text::{str_eq, texts};
use vstd::prelude::*;
use vstd::string::*;

verus! {

/// The outcome of an action that may have had nothing to do.
#[derive(Debug, PartialEq, Eq)]
pub enum HandledOutcome {
    Handled,
    NoOp(NoOpReason),
}

/// What a reply is called in diagnostics.
pub open spec fn variant(r: Response) -> Seq<char> {
    match r {
        Response::Handled => "Response::Handled"@,
        Response::NoOp(_) => "Response::NoOp"@,
        Response::Version(_) => "Response::Version"@,
        Response::Outputs => "Response::Outputs"@,
        Response::Workspaces(_) => "Response::Workspaces"@,
        Response::Windows(_) => "Response::Windows"@,
        Response::Layers => "Response::Layers"@,
        Response::KeyboardLayouts => "Response::KeyboardLayouts"@,
        Response::FocusedOutput => "Response::FocusedOutput"@,
        Response::Activities(_) => "Response::Activities"@,
        Response::FocusedActivity => "Response::FocusedActivity"@,
        Response::FocusedWindow => "Response::FocusedWindow"@,
        Response::PickedWindow => "Response::PickedWindow"@,
        Response::PickedColor => "Response::PickedColor"@,
        Response::OutputConfigChanged => "Response::OutputConfigChanged"@,
        Response::OverviewState => "Response::OverviewState"@,
        Response::Casts => "Response::Casts"@,
        Response::Unknown => "Response::<unknown>"@,
    }
}

/// What a reply is called in diagnostics, without what it carries.
pub fn variant_name(r: &Response) -> (s: &'static str)
    ensures
        s@ == variant(*r),
{
    match r {
        Response::Handled => "Response::Handled",
        Response::NoOp(_) => "Response::NoOp",
        Response::Version(_) => "Response::Version",
        Response::Outputs => "Response::Outputs",
        Response::Workspaces(_) => "Response::Workspaces",
        Response::Windows(_) => "Response::Windows",
        Response::Layers => "Response::Layers",
        Response::KeyboardLayouts => "Response::KeyboardLayouts",
        Response::FocusedOutput => "Response::FocusedOutput",
        Response::Activities(_) => "Response::Activities",
        Response::FocusedActivity => "Response::FocusedActivity",
        Response::FocusedWindow => "Response::FocusedWindow",
        Response::PickedWindow => "Response::PickedWindow",
        Response::PickedColor => "Response::PickedColor",
        Response::OutputConfigChanged => "Response::OutputConfigChanged",
        Response::OverviewState => "Response::OverviewState",
        Response::Casts => "Response::Casts",
        Response::Unknown => "Response::<unknown>",
    }
}

/// The failure that a reply to another request is.
pub open spec fn unexpected(expected: Seq<char>, got: Seq<char>) -> CliErrorView {
    CliErrorView::MalformedResponse(MalformedResponseSourceView::WrongVariant { expected, got })
}

/// The failure that a reply to another request is.
pub fn wrong_variant(expected: &'static str, got: &Response) -> (r: CliError)
    ensures
        r@ == unexpected(expected@, variant(*got)),
{
    CliError::MalformedResponse(
        MalformedResponseSource::WrongVariant { expected, got: variant_name(got).to_owned() },
    )
}

/// What the reply to an action means. `activity_name` is the name to report
/// where the compositor does not know the activity.
pub open spec fn handled(reply: Reply, activity_name: Option<Seq<char>>) -> Result<
    (),
    CliErrorView,
> {
    match reply {
        Ok(Response::Handled) => Ok(()),
        Ok(other) => Err(unexpected("Response::Handled"@, variant(other))),
        Err(e) => Err(
            match (e, activity_name) {
                (IpcError::Server(m), Some(name)) if m@ == "activity not found"@ => {
                    CliErrorView::ActivityNotFound(name)
                },
                _ => e@.as_cli_error(),
            },
        ),
    }
}

/// What an outcome holds.
pub open spec fn result_of<T>(r: Result<T, CliError>) -> Result<T, CliErrorView> {
    match r {
        Ok(v) => Ok(v),
        Err(e) => Err(e@),
    }
}

/// Reads the reply to an action. Only the exact message "activity not found"
/// means that the activity `activity_name` does not exist.
pub fn expect_handled(reply: Reply, activity_name: Option<&String>) -> (r: Result<(), CliError>)
    ensures
        result_of(r) == handled(
            reply,
            match activity_name {
                Some(n) => Some(n@),
                None => None,
            },
        ),
{
    match reply {
        Ok(Response::Handled) => Ok(()),
        Ok(other) => Err(wrong_variant("Response::Handled", &other)),
        Err(IpcError::Server(m)) => {
            if str_eq(m.as_str(), "activity not found") {
                match activity_name {
                    Some(name) => Err(CliError::ActivityNotFound(name.clone())),
                    None => Err(CliError::from(IpcError::Server(m))),
                }
            } else {
                Err(CliError::from(IpcError::Server(m)))
            }
        },
        Err(other) => Err(CliError::from(other)),
    }
}

/// What the reply to an action means that may have had nothing to do.
pub open spec fn handled_or_no_op(reply: Reply) -> Result<HandledOutcome, CliErrorView> {
    match reply {
        Ok(Response::Handled) => Ok(HandledOutcome::Handled),
        Ok(Response::NoOp(reason)) => Ok(HandledOutcome::NoOp(reason)),
        Ok(other) => Err(unexpected("Response::Handled | Response::NoOp"@, variant(other))),
        Err(e) => Err(e@.as_cli_error()),
    }
}

/// Reads the reply to an action that may have had nothing to do.
pub fn expect_handled_or_no_op(reply: Reply) -> (r: Result<HandledOutcome, CliError>)
    ensures
        result_of(r) == handled_or_no_op(reply),
{
    match reply {
        Ok(Response::Handled) => Ok(HandledOutcome::Handled),
        Ok(Response::NoOp(reason)) => Ok(HandledOutcome::NoOp(reason)),
        Ok(other) => Err(wrong_variant("Response::Handled | Response::NoOp", &other)),
        Err(e) => Err(CliError::from(e)),
    }
}

/// The activities in a reply.
pub open spec fn activities_in(reply: Reply) -> Result<Vec<Activity>, CliErrorView> {
    match reply {
        Ok(Response::Activities(v)) => Ok(v),
        Ok(other) => Err(unexpected("Response::Activities"@, variant(other))),
        Err(e) => Err(e@.as_cli_error()),
    }
}

/// Reads the activities in a reply.
pub fn expect_activities(reply: Reply) -> (r: Result<Vec<Activity>, CliError>)
    ensures
        result_of(r) == activities_in(reply),
{
    match reply {
        Ok(Response::Activities(v)) => Ok(v),
        Ok(other) => Err(wrong_variant("Response::Activities", &other)),
        Err(e) => Err(CliError::from(e)),
    }
}

/// The workspaces in a reply.
pub open spec fn workspaces_in(reply: Reply) -> Result<Vec<Workspace>, CliErrorView> {
    match reply {
        Ok(Response::Workspaces(v)) => Ok(v),
        Ok(other) => Err(unexpected("Response::Workspaces"@, variant(other))),
        Err(e) => Err(e@.as_cli_error()),
    }
}

/// Reads the workspaces in a reply.
pub fn expect_workspaces(reply: Reply) -> (r: Result<Vec<Workspace>, CliError>)
    ensures
        result_of(r) == workspaces_in(reply),
{
    match reply {
        Ok(Response::Workspaces(v)) => Ok(v),
        Ok(other) => Err(wrong_variant("Response::Workspaces", &other)),
        Err(e) => Err(CliError::from(e)),
    }
}

/// The windows in a reply.
pub open spec fn windows_in(reply: Reply) -> Result<Vec<Window>, CliErrorView> {
    match reply {
        Ok(Response::Windows(v)) => Ok(v),
        Ok(other) => Err(unexpected("Response::Windows"@, variant(other))),
        Err(e) => Err(e@.as_cli_error()),
    }
}

/// Reads the windows in a reply.
pub fn expect_windows(reply: Reply) -> (r: Result<Vec<Window>, CliError>)
    ensures
        result_of(r) == windows_in(reply),
{
    match reply {
        Ok(Response::Windows(v)) => Ok(v),
        Ok(other) => Err(wrong_variant("Response::Windows", &other)),
        Err(e) => Err(CliError::from(e)),
    }
}

// ---- Lists of names --------------------------------------------------------

/// The names of activities, in order.
pub open spec fn names(activities: Seq<Activity>) -> Seq<Seq<char>> {
    activities.map_values(|a: Activity| a.name@)
}

/// The names of activities, in order.
pub fn activity_names(activities: &Vec<Activity>) -> (r: Vec<String>)
    ensures
        texts(r@) == names(activities@),
{
    let mut out: Vec<String> = Vec::new();
    let mut i: usize = 0;
    while i < activities.len()
        invariant
            i <= activities@.len(),
            texts(out@) == names(activities@.take(i as int)),
        decreases activities@.len() - i,
    {
        let ghost before = out@;
        out.push(activities[i].name.clone());
        proof {
            assert(texts(out@) =~= texts(before).push(activities@[i as int].name@));
            assert(names(activities@.take(i + 1)) =~= names(activities@.take(i as int)).push(
                activities@[i as int].name@,
            ));
        }
        i = i + 1;
    }
    proof {
        assert(activities@.take(i as int) =~= activities@);
    }
    out
}

/// The index of the active activity. Should there be several, the first.
pub open spec fn active_index(activities: Seq<Activity>) -> Option<int> {
    first_where(activities, |a: Activity| a.is_active)
}

/// Finds the active activity. Should there be several, the first.
pub fn find_active(activities: &Vec<Activity>) -> (r: Option<usize>)
    ensures
        match r {
            Some(i) => active_index(activities@) == Some(i as int) && i < activities@.len()
                && activities@[i as int].is_active,
            None => active_index(activities@) is None,
        },
{
    let ghost p = |a: Activity| a.is_active;
    let mut i: usize = 0;
    while i < activities.len()
        invariant
            i <= activities@.len(),
            p == (|a: Activity| a.is_active),
            forall|j: int| 0 <= j < i ==> !p(#[trigger] activities@[j]),
        decreases activities@.len() - i,
    {
        if activities[i].is_active {
            proof {
                lemma_first_is(activities@, p, i as int);
            }
            return Some(i);
        }
        i = i + 1;
    }
    proof {
        lemma_first_none(activities@, p);
    }
    None
}

/// The names of activities with that of the active one first.
pub open spec fn focused_first(activities: Seq<Activity>) -> Seq<Seq<char>> {
    match active_index(activities) {
        Some(k) => seq![activities[k].name@] + names(activities.remove(k)),
        None => names(activities),
    }
}

/// References to all activities but the one at `skip`.
fn all_but(activities: &Vec<Activity>, skip: usize) -> (r: Vec<&Activity>)
    requires
        skip < activities@.len(),
    ensures
        r@.unref() == activities@.remove(skip as int),
{
    let mut out: Vec<&Activity> = Vec::new();
    let mut i: usize = 0;
    while i < activities.len()
        invariant
            i <= activities@.len(),
            skip < activities@.len(),
            out@.unref() == (if i <= skip {
                activities@.take(i as int)
            } else {
                activities@.take(i as int).remove(skip as int)
            }),
        decreases activities@.len() - i,
    {
        let ghost before = out@;
        if i != skip {
            out.push(&activities[i]);
        }
        proof {
            if i < skip {
                assert(out@.unref() =~= activities@.take(i + 1));
            } else if i == skip {
                assert(activities@.take(i + 1).remove(skip as int) =~= activities@.take(i as int));
            } else {
                assert(out@.unref() =~= before.unref().push(activities@[i as int]));
                assert(activities@.take(i + 1).remove(skip as int) =~= activities@.take(
                    i as int,
                ).remove(skip as int).push(activities@[i as int]));
            }
        }
        i = i + 1;
    }
    proof {
        assert(activities@.take(i as int) =~= activities@);
    }
    out
}

/// References to all activities.
fn all_of(activities: &Vec<Activity>) -> (r: Vec<&Activity>)
    ensures
        r@.unref() == activities@,
{
    let mut out: Vec<&Activity> = Vec::new();
    let mut i: usize = 0;
    while i < activities.len()
        invariant
            i <= activities@.len(),
            out@.unref() == activities@.take(i as int),
        decreases activities@.len() - i,
    {
        let ghost before = out@;
        out.push(&activities[i]);
        proof {
            assert(out@.unref() =~= before.unref().push(activities@[i as int]));
            assert(activities@.take(i + 1) =~= activities@.take(i as int).push(
                activities@[i as int],
            ));
        }
        i = i + 1;
    }
    proof {
        assert(activities@.take(i as int) =~= activities@);
    }
    out
}

/// Adds the names of `from` to `out`.
fn push_names(out: &mut Vec<String>, from: &Vec<&Activity>)
    ensures
        texts(final(out)@) == texts(old(out)@) + names(from@.unref()),
{
    let ghost start = texts(out@);
    let mut i: usize = 0;
    proof {
        assert(start + names(from@.unref().take(0)) =~= start);
    }
    while i < from.len()
        invariant
            i <= from@.len(),
            texts(out@) == start + names(from@.unref().take(i as int)),
        decreases from@.len() - i,
    {
        let ghost before = out@;
        out.push(from[i].name.clone());
        proof {
            let listed = from@.unref();
            assert(texts(out@) =~= texts(before).push(from@[i as int].name@));
            assert(names(listed.take(i + 1)) =~= names(listed.take(i as int)).push(
                from@[i as int].name@,
            ));
            assert(start + names(listed.take(i + 1)) =~= (start + names(
                listed.take(i as int),
            )).push(from@[i as int].name@));
        }
        i = i + 1;
    }
    proof {
        assert(from@.unref().take(i as int) =~= from@.unref());
    }
}

/// The names of activities with that of the active one first; the others keep
/// their order.
pub fn names_focused_first(activities: &Vec<Activity>) -> (r: Vec<String>)
    ensures
        texts(r@) == focused_first(activities@),
{
    let mut out: Vec<String> = Vec::new();
    match find_active(activities) {
        Some(k) => {
            out.push(activities[k].name.clone());
            let rest = all_but(activities, k);
            push_names(&mut out, &rest);
            proof {
                assert(texts(out@) =~= seq![activities@[k as int].name@] + names(
                    activities@.remove(k as int),
                ));
            }
        },
        None => {
            let all = all_of(activities);
            push_names(&mut out, &all);
            proof {
                assert(texts(out@) =~= names(activities@));
            }
        },
    }
    out
}

/// Activities rank by how recently they were active.
impl Ranked for Activity {
    open spec fn at_most(&self, other: &Self) -> bool {
        self.last_active_seq >= other.last_active_seq
    }

    fn is_at_most(&self, other: &Self) -> (r: bool) {
        self.last_active_seq >= other.last_active_seq
    }

    proof fn lemma_total(a: Self, b: Self) {
    }

    proof fn lemma_transitive(a: Self, b: Self, c: Self) {
    }
}

/// Activities in the order asked for.
pub open spec fn ordered(activities: Seq<Activity>, order: Order) -> Seq<Activity> {
    match order {
        Order::Static => activities,
        Order::Mru => ranked(activities),
    }
}

/// References to activities in the order asked for.
pub fn in_listed_order(activities: &Vec<Activity>, order: Order) -> (r: Vec<&Activity>)
    ensures
        r@.unref() == ordered(activities@, order),
{
    let all = all_of(activities);
    match order {
        Order::Static => all,
        Order::Mru => sort_ranked(&all),
    }
}

/// The menu of activities to switch to.
#[derive(Debug, PartialEq, Eq)]
pub struct SwitchMenu {
    /// The activities other than the active one.
    pub rows: Vec<String>,
    /// The active one.
    pub current: Option<String>,
}

/// The rows of the menu of activities to switch to.
pub open spec fn switch_rows(activities: Seq<Activity>, order: Order) -> Seq<Seq<char>> {
    match active_index(activities) {
        Some(k) => names(ordered(activities.remove(k), order)),
        None => names(ordered(activities, order)),
    }
}

/// The name of the active activity.
pub open spec fn active_name(activities: Seq<Activity>) -> Option<String> {
    match active_index(activities) {
        Some(k) => Some(activities[k].name),
        None => None,
    }
}

/// The menu of activities to switch to: all but the active one, in the order
/// asked for.
pub fn names_for_switch(activities: &Vec<Activity>, order: Order) -> (r: SwitchMenu)
    ensures
        texts(r.rows@) == switch_rows(activities@, order),
        r.current == active_name(activities@),
{
    let mut rows: Vec<String> = Vec::new();
    let active = find_active(activities);
    let others = match active {
        Some(k) => all_but(activities, k),
        None => all_of(activities),
    };
    let listed = match order {
        Order::Static => others,
        Order::Mru => sort_ranked(&others),
    };
    push_names(&mut rows, &listed);
    proof {
        assert(texts(rows@) =~= switch_rows(activities@, order));
    }
    let current = match active {
        Some(k) => Some(activities[k].name.clone()),
        None => None,
    };
    SwitchMenu { rows, current }
}

/// Putting the active activity first loses and adds no name: the same names
/// are listed, as often as before.
pub proof fn law_focused_first_is_a_permutation(activities: Seq<Activity>)
    ensures
        focused_first(activities).to_multiset() == names(activities).to_multiset(),
        focused_first(activities).len() == activities.len(),
{
    broadcast use vstd::seq_lib::group_to_multiset_ensures;

    lemma_first_where(activities, |a: Activity| a.is_active);
    match active_index(activities) {
        Some(k) => {
            let all = names(activities);
            let name = activities[k].name@;
            assert(names(activities.remove(k)) =~= all.remove(k));
            assert(focused_first(activities) =~= all.remove(k).insert(0, name));
            assert(all[k] == name);
            assert(all.remove(k).insert(0, name).to_multiset() =~= all.remove(k).to_multiset().insert(
                name,
            ));
            assert(all.to_multiset().count(name) > 0) by {
                assert(all.contains(name));
            }
            assert(all.to_multiset().remove(name).insert(name) =~= all.to_multiset());
        },
        None => {},
    }
}

/// In order of recency, the most recently used activity comes first and those
/// never used come last; activities that are equally recent stay in the order of
/// declaration, and none is lost or added.
pub proof fn law_most_recent_first(activities: Seq<Activity>)
    ensures
        ordered(activities, Order::Mru).to_multiset() == activities.to_multiset(),
        ordered(activities, Order::Mru).len() == activities.len(),
        forall|i: int, j: int|
            0 <= i < j < activities.len() ==> (#[trigger] ordered(activities, Order::Mru)[i]).last_active_seq
                >= (#[trigger] ordered(activities, Order::Mru)[j]).last_active_seq,
        forall|a: Activity| #[trigger]
            of_rank(ordered(activities, Order::Mru), a) == of_rank(activities, a),
        ordered(activities, Order::Static) == activities,
{
    lemma_ranked(activities);
    let sorted = ranked(activities);
    assert forall|i: int, j: int| 0 <= i < j < activities.len() implies (#[trigger] sorted[i]).last_active_seq
        >= (#[trigger] sorted[j]).last_active_seq by {
        assert(sorted[i].at_most(&sorted[j]));
    }
}

/// The menu of activities to switch to lists every activity but the active one,
/// each as often as there are activities of that name, in either order.
pub proof fn law_switch_rows_are_the_others(activities: Seq<Activity>, order: Order)
    ensures
        match active_index(activities) {
            Some(k) => switch_rows(activities, order).to_multiset() == names(
                activities.remove(k),
            ).to_multiset(),
            None => switch_rows(activities, order).to_multiset() == names(
                activities,
            ).to_multiset(),
        },
{
    match active_index(activities) {
        Some(k) => {
            lemma_names_of_ordered(activities.remove(k), order);
        },
        None => {
            lemma_names_of_ordered(activities, order);
        },
    }
}

proof fn lemma_names_of_inserted(s: Seq<Activity>, x: Activity)
    ensures
        names(inserted(s, x)).to_multiset() == names(s).to_multiset().insert(x.name@),
    decreases s.len(),
{
    broadcast use vstd::seq_lib::group_to_multiset_ensures;

    if s.len() == 0 || s.last().at_most(&x) {
        assert(names(s.push(x)) =~= names(s).push(x.name@));
    } else {
        let front = s.drop_last();
        lemma_names_of_inserted(front, x);
        assert(names(inserted(front, x).push(s.last())) =~= names(inserted(front, x)).push(
            s.last().name@,
        ));
        assert(s =~= front.push(s.last()));
        assert(names(s) =~= names(front).push(s.last().name@));
        assert(names(front).to_multiset().insert(x.name@).insert(s.last().name@) =~= names(
            front,
        ).to_multiset().insert(s.last().name@).insert(x.name@));
    }
}

proof fn lemma_names_of_ordered(s: Seq<Activity>, order: Order)
    ensures
        names(ordered(s, order)).to_multiset() == names(s).to_multiset(),
    decreases s.len(),
{
    broadcast use vstd::seq_lib::group_to_multiset_ensures;

    if order == Order::Mru && s.len() > 0 {
        let front = s.drop_last();
        lemma_names_of_ordered(front, order);
        lemma_names_of_inserted(ranked(front), s.last());
        assert(s =~= front.push(s.last()));
        assert(names(s) =~= names(front).push(s.last().name@));
    }
}

} // verus!
