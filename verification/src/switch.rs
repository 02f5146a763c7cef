//! The `switch` subcommand: to an activity, by name or from a menu.

use crate::cli::Order;
use crate::error::{CliError, typed, typed_in};
use crate::flow::{AfterHandled, AfterPick, AfterReply, Progress, ProgressView, done, failed,
    picking, sending};
use crate::follow::switch_activity;
use crate::ipc::{Action, Activity, ActivityReferenceArg, Reply, Request, RequestView};
use crate::ipc_helpers::{activities_in, active_index, active_name, expect_activities,
    law_switch_rows_are_the_others, names, names_for_switch, switch_rows};
use crate::picker::PickerOutcome;
use crate::search::lemma_first_where;
use crate::text::{str_eq, texts};
use vstd::prelude::*;
use vstd::string::*;

verus! {

/// Shown where there is no activity.
pub const NOTHING_TO_SWITCH_TO: &'static str =
    "jiji-activities: no activities configured; nothing to switch to";

/// Shown where the only activity is the active one.
pub const ONLY_ACTIVE: &'static str =
    "jiji-activities: only the active activity exists; nothing to switch to";

/// Switching to the activity `name`.
pub open spec fn switching(name: String) -> ProgressView {
    sending(
        switch_activity(name@),
        AfterReply::Handled {
            activity_name: Some(name),
            context: "switching activity",
            next: AfterHandled::Done,
        },
    )
}

/// Switches to the activity `name`.
pub fn run(name: String) -> (r: Progress)
    ensures
        r@ == switching(name),
{
    Progress::send(
        Request::Action(
            Action::SwitchActivity { activity: ActivityReferenceArg::Name(name.clone()) },
        ),
        AfterReply::Handled {
            activity_name: Some(name),
            context: "switching activity",
            next: AfterHandled::Done,
        },
    )
}

/// Switches to an activity that the user chooses.
pub fn run_picker(order: Order) -> (r: Progress)
    ensures
        r@ == sending(RequestView::Activities, AfterReply::SwitchActivities { order }),
{
    Progress::send(Request::Activities, AfterReply::SwitchActivities { order })
}

/// How the active activity is marked.
pub open spec fn marked(name: Seq<char>) -> Seq<char> {
    name + " (current)"@
}

/// How the active activity is marked.
pub fn mark(name: &str) -> (r: String)
    ensures
        r@ == marked(name@),
{
    name.to_owned().concat(" (current)")
}

/// The rows of the menu: the other activities, then the active one, marked.
/// The most recently used one is thus the first.
pub open spec fn menu_items(activities: Seq<Activity>, order: Order) -> Seq<Seq<char>> {
    match active_name(activities) {
        Some(current) => switch_rows(activities, order).push(marked(current@)),
        None => switch_rows(activities, order),
    }
}

/// The menu of activities to switch to.
pub open spec fn offering(order: Order, reply: Reply) -> ProgressView {
    match activities_in(reply) {
        Err(e) => failed(typed_in(e, "requesting activities"@)),
        Ok(activities) => if activities@.len() == 0 {
            done().noting(NOTHING_TO_SWITCH_TO@)
        } else if switch_rows(activities@, order).len() == 0 {
            done().noting(ONLY_ACTIVE@)
        } else {
            picking(
                "Switch to activity:"@,
                menu_items(activities@, order),
                AfterPick::Switch { activities, order },
            )
        },
    }
}

/// Offers the activities to switch to, unless there is none but the active one.
pub fn offer(order: Order, reply: Reply) -> (r: Progress)
    ensures
        r@ == offering(order, reply),
{
    match expect_activities(reply) {
        Err(e) => Progress::fail_in(e, "requesting activities"),
        Ok(activities) => {
            if activities.len() == 0 {
                return Progress::done().noting(NOTHING_TO_SWITCH_TO.to_owned());
            }
            let menu = names_for_switch(&activities, order);
            proof {
                assert(texts(menu.rows@).len() == menu.rows@.len());
            }
            if menu.rows.len() == 0 {
                return Progress::done().noting(ONLY_ACTIVE.to_owned());
            }
            let mut rows = menu.rows;
            let ghost before = rows@;
            match menu.current {
                Some(current) => {
                    rows.push(mark(current.as_str()));
                    proof {
                        assert(texts(rows@) =~= texts(before).push(marked(current@)));
                    }
                },
                None => {},
            }
            Progress::pick("Switch to activity:", rows, AfterPick::Switch { activities, order })
        },
    }
}

/// The activity that a row of the menu stands for.
pub open spec fn meant(activities: Seq<Activity>, row: String) -> String {
    match active_name(activities) {
        Some(current) => if row@ == marked(current@) {
            current
        } else {
            row
        },
        None => row,
    }
}

/// What follows the choice of an activity to switch to.
pub open spec fn chosen(
    activities: Vec<Activity>,
    order: Order,
    picked: Result<PickerOutcome, CliError>,
) -> ProgressView {
    match picked {
        Err(e) => failed(typed(e@)),
        Ok(PickerOutcome::Cancelled) => done(),
        Ok(PickerOutcome::Selected(row)) => switching(meant(activities@, row)),
    }
}

/// Switches to the chosen activity; the marked row stands for the active one.
pub fn choose_activity(
    activities: Vec<Activity>,
    order: Order,
    picked: Result<PickerOutcome, CliError>,
) -> (r: Progress)
    ensures
        r@ == chosen(activities, order, picked),
{
    match picked {
        Err(e) => Progress::fail(e),
        Ok(PickerOutcome::Cancelled) => Progress::done(),
        Ok(PickerOutcome::Selected(row)) => {
            let menu = names_for_switch(&activities, order);
            match menu.current {
                Some(current) => {
                    let label = mark(current.as_str());
                    if str_eq(row.as_str(), label.as_str()) {
                        run(current)
                    } else {
                        run(row)
                    }
                },
                None => run(row),
            }
        },
    }
}

/// Whatever row of the menu is chosen, one of the listed activities is switched
/// to: the marked row stands for the active one, and every other row for the
/// activity of that name.
pub proof fn law_offered_row_is_understood(activities: Seq<Activity>, order: Order, row: String)
    requires
        menu_items(activities, order).contains(row@),
    ensures
        names(activities).contains(meant(activities, row)@),
        match active_name(activities) {
            Some(current) => meant(activities, row)@ == (if row@ == marked(current@) {
                current@
            } else {
                row@
            }),
            None => meant(activities, row)@ == row@,
        },
{
    broadcast use vstd::seq_lib::group_to_multiset_ensures;

    let all = names(activities);
    lemma_first_where(activities, |a: Activity| a.is_active);
    law_switch_rows_are_the_others(activities, order);
    let rows = switch_rows(activities, order);
    match active_index(activities) {
        Some(k) => {
            let current = activities[k].name;
            assert(all[k] == current@);
            if row@ != marked(current@) {
                let items = menu_items(activities, order);
                let i = choose|i: int| 0 <= i < items.len() && items[i] == row@;
                assert(rows[i] == row@);
                assert(rows.contains(row@));
                assert(rows.to_multiset().count(row@) > 0);
                let others = names(activities.remove(k));
                assert(others.contains(row@));
                let j = choose|j: int| 0 <= j < others.len() && others[j] == row@;
                assert(others =~= all.remove(k));
                if j < k {
                    assert(all[j] == row@);
                } else {
                    assert(all[j + 1] == row@);
                }
            }
        },
        None => {
            assert(rows.to_multiset().count(row@) > 0);
            assert(all.contains(row@));
        },
    }
}

} // verus!
