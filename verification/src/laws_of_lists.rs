//! What holds of the lists and the menus of activities: which of them are named, in
//! what order, what is said of each, and what a chosen row stands for.

use crate::cli::{Cmd, FollowMode, Order, started};
use crate::error::CliErrorView;
use crate::flow::{AfterPick, AfterPrint, AfterReply, OutputView, StepView};
use crate::ipc::{ActionView, Activity, ActivityReferenceView, IpcError, RequestView, Response,
    Window, Workspace};
use crate::ipc_helpers::{active_index, focused_first, names, ordered};
use crate::laws::{fails_with, succeeded};
use crate::list::{Field, JsonActivityView, ListOpts, activity_row, activity_rows, asked_fields,
    belongs_to, counted, field_lines, field_name, field_names, field_text, is_on, json_activity,
    json_envelope, kind_width, law_accepted_formats, listed_rows, name_width, narrowed, table,
    table_line, table_lines, windows_on_all};
use crate::move_window::laws::ids_distinct;
use crate::move_window::snapshot::has_name;
use crate::move_workspace::NOTHING_TO_MOVE_TO;
use crate::order::{lemma_chosen_placed, lemma_ranked_placed, ranked};
use crate::picker::PickerOutcome;
use crate::rename::NOTHING_TO_RENAME;
use crate::resume::{picked_one, replied};
use crate::search::{lemma_filter_places, lemma_first_where};
use crate::switch::{NOTHING_TO_SWITCH_TO, ONLY_ACTIVE};
use crate::text::{byte_len, decimal, joined, padded, split, terminated, text_of};
use vstd::prelude::*;
use vstd::string::*;

verus! {

/// Whether the activities at the given places stand in the order asked for: by
/// place, or the more recently used before the less recently used, and by place
/// where both are equally recent. No place comes twice.
pub open spec fn in_order_asked(activities: Seq<Activity>, order: Order, places: Seq<int>) -> bool {
    forall|i: int, j: int|
        #![trigger places[i], places[j]]
        0 <= i < j < places.len() ==> {
            let a = activities[places[i]].last_active_seq;
            let b = activities[places[j]].last_active_seq;
            match order {
                Order::Static => places[i] < places[j],
                Order::Mru => a > b || (a == b && places[i] < places[j]),
            }
        }
}

/// Whether `places` are the places of the activities that are asked for, of all of
/// them or of those with the name `only`, in the order asked for.
pub open spec fn is_arranged(
    activities: Seq<Activity>,
    order: Order,
    only: Option<Seq<char>>,
    places: Seq<int>,
) -> bool {
    &&& forall|k: int| #[trigger]
        places.contains(k) <==> 0 <= k < activities.len() && (only matches Some(name)
            ==> activities[k].name@ == name)
    &&& in_order_asked(activities, order, places)
}

/// The activities that are listed stand at places that are so arranged.
proof fn lemma_listed_places(activities: Seq<Activity>, order: Order, only: Option<String>) -> (places:
    Seq<int>)
    ensures
        is_arranged(activities, order, crate::text::text_of(only), places),
        places.len() == narrowed(ordered(activities, order), only).len(),
        forall|i: int|
            0 <= i < places.len() ==> 0 <= #[trigger] places[i] < activities.len() && narrowed(
                ordered(activities, order),
                only,
            )[i] == activities[places[i]],
{
    match order {
        Order::Static => match only {
            None => {
                let places = Seq::new(activities.len(), |i: int| i);
                assert forall|k: int| 0 <= k < activities.len() implies #[trigger] places.contains(
                    k,
                ) by {
                    assert(places[k] == k);
                }
                places
            },
            Some(n) => lemma_filter_places(activities, has_name(n@)),
        },
        Order::Mru => {
            let all = lemma_ranked_placed(activities);
            match only {
                None => {
                    assert forall|k: int| #[trigger] all.contains(k) implies 0 <= k
                        < activities.len() by {
                        let i = choose|i: int| 0 <= i < all.len() && all[i] == k;
                    }
                    all
                },
                Some(n) => {
                    let kept = lemma_chosen_placed(
                        activities,
                        ranked(activities),
                        all,
                        has_name(n@),
                    );
                    assert forall|k: int| #[trigger] kept.contains(k) implies 0 <= k
                        < activities.len() by {
                        let i = choose|i: int| 0 <= i < kept.len() && kept[i] == k;
                    }
                    kept
                },
            }
        },
    }
}

// ---- What is said of an activity -------------------------------------------

/// Whether a window is on a workspace of the activity with the given id.
pub open spec fn is_within(activity_id: u64, workspaces: Seq<Workspace>) -> spec_fn(Window) -> bool {
    |w: Window| exists|i: int|
        0 <= i < workspaces.len() && (#[trigger] workspaces[i]).activities@.contains(activity_id)
            && w.workspace_id == Some(workspaces[i].id)
}

/// Whether `value` is what the column called `column` has to say of an activity.
/// The windows count once each, as long as no two workspaces share an id.
pub open spec fn is_told(
    column: Seq<char>,
    value: Seq<char>,
    a: Activity,
    workspaces: Seq<Workspace>,
    windows: Seq<Window>,
) -> bool {
    &&& column == "name"@ ==> value == a.name@
    &&& column == "kind"@ ==> value == (if a.is_config_declared {
        "config"@
    } else {
        "runtime"@
    })
    &&& column == "focused"@ ==> value == (if a.is_active {
        "true"@
    } else {
        "false"@
    })
    &&& column == "workspace_count"@ ==> value == decimal(
        workspaces.filter(|w: Workspace| w.activities@.contains(a.id)).len(),
    )
    &&& column == "window_count"@ && ids_distinct(workspaces) ==> value == decimal(
        windows.filter(is_within(a.id, workspaces)).len(),
    )
}

/// Whether a line of chosen columns says of an activity what it has to.
pub open spec fn is_line_of_columns(
    line: Seq<char>,
    columns: Seq<Seq<char>>,
    a: Activity,
    workspaces: Seq<Workspace>,
    windows: Seq<Window>,
) -> bool {
    exists|values: Seq<Seq<char>>| #[trigger]
        joined(values, ","@) == line && values.len() == columns.len() && forall|k: int|
            0 <= k < columns.len() ==> is_told(
                columns[k],
                #[trigger] values[k],
                a,
                workspaces,
                windows,
            )
}

/// A number and what it counts, in the plural unless there is one.
pub open spec fn count_of(n: nat, what: Seq<char>) -> Seq<char> {
    decimal(n) + " "@ + what + (if n == 1 {
        Seq::empty()
    } else {
        "s"@
    })
}

/// Whether a line of the table says of an activity what it has to, in columns of
/// the given widths: a star before the active one, the name, the kind, and how many
/// workspaces and windows there are.
pub open spec fn is_line_of_table(
    line: Seq<char>,
    name_width: usize,
    kind_width: usize,
    a: Activity,
    workspaces: Seq<Workspace>,
    windows: Seq<Window>,
) -> bool {
    let kind = if a.is_config_declared {
        "(config)"@
    } else {
        "(runtime)"@
    };
    let there = workspaces.filter(|w: Workspace| w.activities@.contains(a.id)).len();
    exists|n: nat| {
        &&& line == (if a.is_active {
            "* "@
        } else {
            "  "@
        }) + padded(a.name@, name_width as nat) + "  "@ + padded(kind, kind_width as nat) + "  ["@
            + count_of(there, "workspace"@) + ", "@ + #[trigger] count_of(n, "window"@) + "]"@
        &&& ids_distinct(workspaces) ==> n == windows.filter(is_within(a.id, workspaces)).len()
    }
}

/// Whether the columns of the table are as wide as they have to be and no wider:
/// that of the names as the longest name takes in bytes, and that of the kinds as
/// the longest kind.
pub open spec fn are_widths(
    name_width: usize,
    kind_width: usize,
    activities: Seq<Activity>,
    places: Seq<int>,
) -> bool {
    &&& forall|i: int|
        0 <= i < places.len() ==> byte_len(activities[#[trigger] places[i]].name@) <= name_width
    &&& places.len() > 0 ==> exists|i: int|
        0 <= i < places.len() && byte_len(activities[#[trigger] places[i]].name@) == name_width
    &&& places.len() > 0 ==> kind_width == (if exists|i: int|
        0 <= i < places.len() && !activities[#[trigger] places[i]].is_config_declared {
        9usize
    } else {
        8
    })
}

/// Whether an entry of the JSON document says of an activity what it has to.
pub open spec fn is_entry(
    e: JsonActivityView,
    a: Activity,
    workspaces: Seq<Workspace>,
    windows: Seq<Window>,
) -> bool {
    let there = workspaces.filter(|w: Workspace| w.activities@.contains(a.id));
    &&& e.name == a.name@
    &&& e.kind == (if a.is_config_declared {
        "config"@
    } else {
        "runtime"@
    })
    &&& e.focused == a.is_active
    &&& e.workspaces.len() == there.len()
    &&& forall|i: int|
        0 <= i < there.len() ==> (#[trigger] e.workspaces[i]).id == there[i].id
            && e.workspaces[i].name == text_of(there[i].name) && e.workspaces[i].sticky
            == there[i].is_sticky
    &&& ids_distinct(workspaces) ==> e.window_count == windows.filter(
        is_within(a.id, workspaces),
    ).len()
}

/// Whether `output` lists the activities at the given places, in that order, and
/// nothing else.
pub open spec fn is_list(
    output: OutputView,
    opts: ListOpts,
    activities: Seq<Activity>,
    places: Seq<int>,
    workspaces: Seq<Workspace>,
    windows: Seq<Window>,
) -> bool {
    match output {
        OutputView::Json(e) => {
            &&& opts.json
            &&& e.schema_version == 1
            &&& e.activities.len() == places.len()
            &&& forall|i: int|
                0 <= i < places.len() ==> is_entry(
                    #[trigger] e.activities[i],
                    activities[places[i]],
                    workspaces,
                    windows,
                )
        },
        OutputView::Text(t) => {
            &&& !opts.json
            &&& exists|lines: Seq<Seq<char>>| #[trigger]
                terminated(lines, "\n"@) == t && lines.len() == places.len() && match opts.format {
                    None => exists|name_width: usize, kind_width: usize|
                        {
                            &&& #[trigger] are_widths(name_width, kind_width, activities, places)
                            &&& forall|i: int|
                                0 <= i < places.len() ==> is_line_of_table(
                                    #[trigger] lines[i],
                                    name_width,
                                    kind_width,
                                    activities[places[i]],
                                    workspaces,
                                    windows,
                                )
                        },
                    Some(spec) => forall|i: int|
                        0 <= i < places.len() ==> is_line_of_columns(
                            #[trigger] lines[i],
                            split(spec@, ','),
                            activities[places[i]],
                            workspaces,
                            windows,
                        ),
                }
        },
        OutputView::Completions { .. } => false,
    }
}

proof fn lemma_filter_parts(
    windows: Seq<Window>,
    p: spec_fn(Window) -> bool,
    q: spec_fn(Window) -> bool,
    r: spec_fn(Window) -> bool,
)
    requires
        forall|w: Window| #[trigger] r(w) <==> p(w) || q(w),
        forall|w: Window| !(#[trigger] p(w) && q(w)),
    ensures
        windows.filter(r).len() == windows.filter(p).len() + windows.filter(q).len(),
    decreases windows.len(),
{
    reveal(Seq::filter);
    if windows.len() > 0 {
        lemma_filter_parts(windows.drop_last(), p, q, r);
        let w = windows.last();
        assert(r(w) <==> p(w) || q(w));
        assert(!(p(w) && q(w)));
    }
}

proof fn lemma_filter_none(windows: Seq<Window>, p: spec_fn(Window) -> bool)
    requires
        forall|w: Window| !#[trigger] p(w),
    ensures
        windows.filter(p).len() == 0,
    decreases windows.len(),
{
    reveal(Seq::filter);
    if windows.len() > 0 {
        lemma_filter_none(windows.drop_last(), p);
    }
}

/// Whether a window is on one of the workspaces.
spec fn is_on_one(there: Seq<Workspace>) -> spec_fn(Window) -> bool {
    |w: Window| exists|i: int|
        0 <= i < there.len() && w.workspace_id == Some((#[trigger] there[i]).id)
}

proof fn lemma_windows_counted(windows: Seq<Window>, there: Seq<Workspace>)
    requires
        ids_distinct(there),
    ensures
        windows_on_all(windows, there) == windows.filter(is_on_one(there)).len(),
    decreases there.len(),
{
    let r = is_on_one(there);
    if there.len() == 0 {
        lemma_filter_none(windows, r);
    } else {
        let head = there.drop_last();
        let last = there[there.len() - 1];
        assert forall|i: int| 0 <= i < head.len() implies #[trigger] head[i] == there[i] by {}
        lemma_windows_counted(windows, head);
        let p = is_on_one(head);
        let q = is_on(last.id);
        assert forall|w: Window| #[trigger] r(w) <==> p(w) || q(w) by {
            if r(w) {
                let i = choose|i: int|
                    0 <= i < there.len() && w.workspace_id == Some((#[trigger] there[i]).id);
                if i < head.len() {
                    assert(head[i] == there[i]);
                }
            }
            if p(w) {
                let i = choose|i: int|
                    0 <= i < head.len() && w.workspace_id == Some((#[trigger] head[i]).id);
                assert(there[i] == head[i]);
            }
        }
        assert forall|w: Window| !(#[trigger] p(w) && q(w)) by {
            if p(w) && q(w) {
                let i = choose|i: int|
                    0 <= i < head.len() && w.workspace_id == Some((#[trigger] head[i]).id);
                assert(there[i].id != there[there.len() - 1].id);
            }
        }
        lemma_filter_parts(windows, p, q, r);
    }
}

proof fn lemma_filter_len<T>(s: Seq<T>, p: spec_fn(T) -> bool)
    ensures
        s.filter(p).len() <= s.len(),
    decreases s.len(),
{
    reveal(Seq::filter);
    if s.len() > 0 {
        lemma_filter_len(s.drop_last(), p);
    }
}

/// What the row of an activity holds.
proof fn lemma_row(a: Activity, workspaces: Vec<Workspace>, windows: Vec<Window>)
    ensures
        ({
            let row = activity_row(a, workspaces@, windows@);
            let there = workspaces@.filter(|w: Workspace| w.activities@.contains(a.id));
            &&& row.workspaces.len() == there.len() <= usize::MAX
            &&& forall|i: int|
                0 <= i < there.len() ==> (#[trigger] row.workspaces[i]).id == there[i].id
                    && row.workspaces[i].name == text_of(there[i].name) && row.workspaces[i].sticky
                    == there[i].is_sticky
            &&& ids_distinct(workspaces@) ==> row.window_count == windows@.filter(
                is_within(a.id, workspaces@),
            ).len()
        }),
{
    let member = |w: Workspace| w.activities@.contains(a.id);
    assert(member =~= belongs_to(a.id));
    let there = workspaces@.filter(member);
    let inside = is_within(a.id, workspaces@);
    let places = lemma_filter_places(workspaces@, member);
    lemma_filter_len(workspaces@, member);
    lemma_filter_len(windows@, inside);
    assert(workspaces@.len() == workspaces.len());
    assert(windows@.len() == windows.len());
    if ids_distinct(workspaces@) {
        assert forall|i: int, j: int| 0 <= i < j < there.len() implies (#[trigger] there[i]).id != (
        #[trigger] there[j]).id by {
            assert(places[i] < places[j]);
        }
        lemma_windows_counted(windows@, there);
        let on_one = is_on_one(there);
        assert forall|w: Window| #[trigger] inside(w) == on_one(w) by {
            if inside(w) {
                let k = choose|k: int|
                    0 <= k < workspaces@.len() && (#[trigger] workspaces@[k]).activities@.contains(
                        a.id,
                    ) && w.workspace_id == Some(workspaces@[k].id);
                assert(places.contains(k));
                let i = choose|i: int| 0 <= i < places.len() && places[i] == k;
                assert(there[i] == workspaces@[k]);
            }
            if on_one(w) {
                let i = choose|i: int|
                    0 <= i < there.len() && w.workspace_id == Some((#[trigger] there[i]).id);
                let k = places[i];
                assert(places.contains(k));
                assert(there[i] == workspaces@[k]);
            }
        }
        assert(inside =~= on_one);
    }
}

/// A line of the table, without the line feed.
proof fn lemma_table_line(
    a: Activity,
    workspaces: Vec<Workspace>,
    windows: Vec<Window>,
    name_width: usize,
    kind_width: usize,
)
    ensures
        ({
            let line = table_line(activity_row(a, workspaces@, windows@), name_width, kind_width);
            &&& line.len() > 0
            &&& line == line.drop_last() + "\n"@
            &&& is_line_of_table(
                line.drop_last(),
                name_width,
                kind_width,
                a,
                workspaces@,
                windows@,
            )
        }),
{
    reveal_strlit("]");
    reveal_strlit("]\n");
    reveal_strlit("\n");
    reveal_strlit("s");
    reveal_strlit("workspace");
    reveal_strlit("workspaces");
    reveal_strlit("window");
    reveal_strlit("windows");
    lemma_row(a, workspaces, windows);
    let row = activity_row(a, workspaces@, windows@);
    let line = table_line(row, name_width, kind_width);
    let there = workspaces@.filter(|w: Workspace| w.activities@.contains(a.id)).len();
    let n = row.window_count as nat;
    assert("workspace"@ + "s"@ =~= "workspaces"@);
    assert("window"@ + "s"@ =~= "windows"@);
    assert("]"@ + "\n"@ =~= "]\n"@);
    assert(count_of(there, "workspace"@) =~= counted(there as usize, "workspace"@, "workspaces"@));
    assert(count_of(n, "window"@) =~= counted(row.window_count, "window"@, "windows"@));
    let kind = if a.is_config_declared {
        "(config)"@
    } else {
        "(runtime)"@
    };
    let body = (if a.is_active {
        "* "@
    } else {
        "  "@
    }) + padded(a.name@, name_width as nat) + "  "@ + padded(kind, kind_width as nat) + "  ["@
        + count_of(there, "workspace"@) + ", "@ + count_of(n, "window"@) + "]"@;
    assert(line =~= body + "\n"@);
    assert(line.drop_last() =~= body);
}

/// The widths of the columns.
proof fn lemma_widths(
    listed: Seq<Activity>,
    workspaces: Seq<Workspace>,
    windows: Seq<Window>,
)
    ensures
        ({
            let rows = activity_rows(listed, workspaces, windows);
            &&& forall|i: int|
                0 <= i < listed.len() ==> byte_len((#[trigger] listed[i]).name@) <= name_width(rows)
            &&& listed.len() > 0 ==> exists|i: int|
                0 <= i < listed.len() && byte_len((#[trigger] listed[i]).name@) == name_width(rows)
            &&& kind_width(rows) == (if listed.len() == 0 {
                0usize
            } else if exists|i: int|
                0 <= i < listed.len() && !(#[trigger] listed[i]).is_config_declared {
                9
            } else {
                8
            })
        }),
    decreases listed.len(),
{
    let rows = activity_rows(listed, workspaces, windows);
    if listed.len() > 0 {
        let head = listed.drop_last();
        let last = listed.len() - 1;
        lemma_widths(head, workspaces, windows);
        let before = activity_rows(head, workspaces, windows);
        assert(rows.drop_last() =~= before);
        assert(rows.last() == activity_row(listed[last], workspaces, windows));
        assert forall|i: int| 0 <= i < head.len() implies #[trigger] head[i] == listed[i] by {}
        assert forall|i: int| 0 <= i < listed.len() implies byte_len((#[trigger] listed[i]).name@)
            <= name_width(rows) by {
            if i < last {
                assert(head[i] == listed[i]);
            }
        }
        if byte_len(listed[last].name@) != name_width(rows) {
            if head.len() > 0 {
                let i = choose|i: int|
                    0 <= i < head.len() && byte_len((#[trigger] head[i]).name@) == name_width(
                        before,
                    );
                assert(listed[i] == head[i]);
            }
        }
        if exists|i: int| 0 <= i < head.len() && !(#[trigger] head[i]).is_config_declared {
            let i = choose|i: int| 0 <= i < head.len() && !(#[trigger] head[i]).is_config_declared;
            assert(!listed[i].is_config_declared);
        }
        if exists|i: int| 0 <= i < last && !(#[trigger] listed[i]).is_config_declared {
            let i = choose|i: int| 0 <= i < last && !(#[trigger] listed[i]).is_config_declared;
            assert(!head[i].is_config_declared);
        }
    }
}

/// The lines of the table.
proof fn lemma_table_lines(
    listed: Seq<Activity>,
    workspaces: Vec<Workspace>,
    windows: Vec<Window>,
    name_width: usize,
    kind_width: usize,
) -> (lines: Seq<Seq<char>>)
    ensures
        terminated(lines, "\n"@) == table_lines(
            activity_rows(listed, workspaces@, windows@),
            name_width,
            kind_width,
        ),
        lines.len() == listed.len(),
        forall|i: int|
            0 <= i < lines.len() ==> is_line_of_table(
                #[trigger] lines[i],
                name_width,
                kind_width,
                listed[i],
                workspaces@,
                windows@,
            ),
    decreases listed.len(),
{
    let rows = activity_rows(listed, workspaces@, windows@);
    if listed.len() == 0 {
        Seq::empty()
    } else {
        let head = listed.drop_last();
        let a = listed.last();
        let before = lemma_table_lines(head, workspaces, windows, name_width, kind_width);
        lemma_table_line(a, workspaces, windows, name_width, kind_width);
        assert(rows.drop_last() =~= activity_rows(head, workspaces@, windows@));
        assert(rows.last() == activity_row(a, workspaces@, windows@));
        let line = table_line(rows.last(), name_width, kind_width);
        let lines = before.push(line.drop_last());
        assert(lines.drop_last() =~= before);
        assert(terminated(lines, "\n"@) =~= terminated(before, "\n"@) + line);
        lines
    }
}

/// The values of the chosen columns.
proof fn lemma_columns(
    a: Activity,
    workspaces: Vec<Workspace>,
    windows: Vec<Window>,
    fields: Seq<Field>,
    columns: Seq<Seq<char>>,
)
    requires
        columns == field_names(fields),
    ensures
        ({
            let row = activity_row(a, workspaces@, windows@);
            let values = fields.map_values(|f: Field| field_text(row, f));
            is_line_of_columns(joined(values, ","@), columns, a, workspaces@, windows@)
        }),
{
    reveal_strlit("name");
    reveal_strlit("kind");
    reveal_strlit("focused");
    reveal_strlit("workspace_count");
    reveal_strlit("window_count");
    assert("name"@.len() == 4 && "kind"@.len() == 4 && "focused"@.len() == 7);
    assert("workspace_count"@.len() == 15 && "window_count"@.len() == 12);
    assert("name"@[0] == 'n' && "kind"@[0] == 'k');
    lemma_row(a, workspaces, windows);
    let row = activity_row(a, workspaces@, windows@);
    let values = fields.map_values(|f: Field| field_text(row, f));
    assert forall|k: int| 0 <= k < columns.len() implies is_told(
        columns[k],
        #[trigger] values[k],
        a,
        workspaces@,
        windows@,
    ) by {
        assert(columns[k] == field_name(fields[k]));
        assert(values[k] == field_text(row, fields[k]));
    }
}

/// The lines of chosen columns.
proof fn lemma_column_lines(
    listed: Seq<Activity>,
    workspaces: Vec<Workspace>,
    windows: Vec<Window>,
    fields: Seq<Field>,
    columns: Seq<Seq<char>>,
) -> (lines: Seq<Seq<char>>)
    requires
        columns == field_names(fields),
    ensures
        terminated(lines, "\n"@) == field_lines(
            activity_rows(listed, workspaces@, windows@),
            fields,
        ),
        lines.len() == listed.len(),
        forall|i: int|
            0 <= i < lines.len() ==> is_line_of_columns(
                #[trigger] lines[i],
                columns,
                listed[i],
                workspaces@,
                windows@,
            ),
    decreases listed.len(),
{
    let rows = activity_rows(listed, workspaces@, windows@);
    if listed.len() == 0 {
        Seq::empty()
    } else {
        let head = listed.drop_last();
        let a = listed.last();
        let before = lemma_column_lines(head, workspaces, windows, fields, columns);
        lemma_columns(a, workspaces, windows, fields, columns);
        assert(rows.drop_last() =~= activity_rows(head, workspaces@, windows@));
        assert(rows.last() == activity_row(a, workspaces@, windows@));
        let line = joined(fields.map_values(|f: Field| field_text(rows.last(), f)), ","@);
        let lines = before.push(line);
        assert(lines.drop_last() =~= before);
        assert(terminated(lines, "\n"@) =~= terminated(before, "\n"@) + (line + "\n"@));
        lines
    }
}

/// A list goes on with the activities that the compositor listed, and with all that
/// the command line says, to the workspaces and then to the windows. Only where no
/// activity has the name that is asked for does it end, and says so.
pub proof fn law_list_keeps_what_it_was_told(
    opts: ListOpts,
    activities: Vec<Activity>,
    workspaces: Vec<Workspace>,
    shown: Seq<char>,
)
    ensures
        ({
            let p = replied(
                AfterReply::ListActivities { opts },
                Ok(Response::Activities(activities)),
                shown,
            );
            match opts.activity {
                Some(name) if forall|k: int|
                    0 <= k < activities@.len() ==> (#[trigger] activities@[k]).name@ != name@ => {
                    fails_with(p, CliErrorView::ActivityNotFound(name@))
                },
                _ => p.step == (StepView::Send {
                    request: RequestView::Workspaces,
                    then: AfterReply::ListWorkspaces { opts, activities },
                }),
            }
        }),
        replied(
            AfterReply::ListWorkspaces { opts, activities },
            Ok(Response::Workspaces(workspaces)),
            shown,
        ).step == (StepView::Send {
            request: RequestView::Windows,
            then: AfterReply::ListWindows { opts, activities, workspaces },
        }),
{
    match opts.activity {
        Some(name) => {
            let p = has_name(name@);
            lemma_first_where(activities@, p);
            if forall|k: int|
                0 <= k < activities@.len() ==> (#[trigger] activities@[k]).name@ != name@ {
            } else {
                let k = choose|k: int|
                    0 <= k < activities@.len() && (#[trigger] activities@[k]).name@ == name@;
                assert(p(activities@[k]));
            }
        },
        None => {},
    }
}

/// A list that was begun is printed once the compositor has listed everything.
pub proof fn law_list_is_printed(
    opts: ListOpts,
    activities: Vec<Activity>,
    workspaces: Vec<Workspace>,
    windows: Vec<Window>,
    shown: Seq<char>,
)
    requires
        started(
            Cmd::List {
                json: opts.json,
                format: opts.format,
                activity: opts.activity,
                order: opts.order,
            },
        ).step is Send,
    ensures
        replied(
            AfterReply::ListWindows { opts, activities, workspaces },
            Ok(Response::Windows(windows)),
            shown,
        ).step is Print,
{
}

/// Whatever its form, a list names the activities that are asked for, each once
/// and in the order asked for: the more recently used before the less recently
/// used where that is wanted, and otherwise as the compositor lists them. What it
/// says of each is what the compositor said.
pub proof fn law_list_shows_the_activities(
    opts: ListOpts,
    activities: Vec<Activity>,
    workspaces: Vec<Workspace>,
    windows: Vec<Window>,
    shown: Seq<char>,
)
    ensures
        replied(
            AfterReply::ListWindows { opts, activities, workspaces },
            Ok(Response::Windows(windows)),
            shown,
        ).step matches StepView::Print { output, then } ==> then == AfterPrint::List && exists|
            places: Seq<int>,
        | #[trigger]
            is_arranged(activities@, opts.order, text_of(opts.activity), places) && is_list(
                output,
                opts,
                activities@,
                places,
                workspaces@,
                windows@,
            ),
{
    let listed = narrowed(ordered(activities@, opts.order), opts.activity);
    let places = lemma_listed_places(activities@, opts.order, opts.activity);
    let rows = listed_rows(opts, activities@, workspaces@, windows@);
    assert(rows == activity_rows(listed, workspaces@, windows@));
    match asked_fields(opts) {
        Err(_) => {},
        Ok(fields) => {
            if opts.json {
                let e = json_envelope(rows);
                assert forall|i: int| 0 <= i < places.len() implies is_entry(
                    #[trigger] e.activities[i],
                    activities@[places[i]],
                    workspaces@,
                    windows@,
                ) by {
                    lemma_row(listed[i], workspaces, windows);
                    assert(e.activities[i] == json_activity(rows[i]));
                    assert(rows[i] == activity_row(listed[i], workspaces@, windows@));
                }
                assert(is_list(
                    OutputView::Json(e),
                    opts,
                    activities@,
                    places,
                    workspaces@,
                    windows@,
                ));
            } else {
                match fields {
                    None => {
                        let lines = lemma_table_lines(
                            listed,
                            workspaces,
                            windows,
                            name_width(rows),
                            kind_width(rows),
                        );
                        let wide = name_width(rows);
                        let kinds = kind_width(rows);
                        lemma_widths(listed, workspaces@, windows@);
                        assert forall|i: int| 0 <= i < places.len() implies is_line_of_table(
                            #[trigger] lines[i],
                            wide,
                            kinds,
                            activities@[places[i]],
                            workspaces@,
                            windows@,
                        ) by {}
                        assert forall|i: int| 0 <= i < places.len() implies listed[i]
                            == activities@[#[trigger] places[i]] by {}
                        if places.len() > 0 {
                            let i = choose|i: int|
                                0 <= i < listed.len() && byte_len((#[trigger] listed[i]).name@)
                                    == wide;
                            assert(byte_len(activities@[places[i]].name@) == wide);
                            if exists|i: int|
                                0 <= i < listed.len() && !(
                                #[trigger] listed[i]).is_config_declared {
                                let j = choose|j: int|
                                    0 <= j < listed.len() && !(
                                    #[trigger] listed[j]).is_config_declared;
                                assert(!activities@[places[j]].is_config_declared);
                            }
                            if exists|i: int|
                                0 <= i < places.len()
                                    && !activities@[#[trigger] places[i]].is_config_declared {
                                let j = choose|j: int|
                                    0 <= j < places.len()
                                        && !activities@[#[trigger] places[j]].is_config_declared;
                                assert(!listed[j].is_config_declared);
                            }
                        }
                        assert(are_widths(wide, kinds, activities@, places));
                        assert(is_list(
                            OutputView::Text(table(rows)),
                            opts,
                            activities@,
                            places,
                            workspaces@,
                            windows@,
                        ));
                    },
                    Some(fields) => {
                        let spec = opts.format->0@;
                        law_accepted_formats(spec);
                        let columns = split(spec, ',');
                        let lines = lemma_column_lines(
                            listed,
                            workspaces,
                            windows,
                            fields,
                            columns,
                        );
                        assert forall|i: int| 0 <= i < places.len() implies is_line_of_columns(
                            #[trigger] lines[i],
                            columns,
                            activities@[places[i]],
                            workspaces@,
                            windows@,
                        ) by {}
                        assert(is_list(
                            OutputView::Text(field_lines(rows, fields)),
                            opts,
                            activities@,
                            places,
                            workspaces@,
                            windows@,
                        ));
                    },
                }
            }
        },
    }
}

// ---- Menus of activities ---------------------------------------------------

/// Whether the activity at place `k` is the active one; should there be several,
/// the first.
pub open spec fn is_the_active(activities: Seq<Activity>, k: int) -> bool {
    &&& 0 <= k < activities.len()
    &&& activities[k].is_active
    &&& forall|j: int| 0 <= j < k ==> !(#[trigger] activities[j]).is_active
}

/// The place of the active activity is the one that is looked up.
pub proof fn lemma_the_active(activities: Seq<Activity>)
    ensures
        match active_index(activities) {
            Some(k) => is_the_active(activities, k) && forall|j: int| #[trigger]
                is_the_active(activities, j) ==> j == k,
            None => forall|j: int| !#[trigger] is_the_active(activities, j),
        },
{
    let p = |a: Activity| a.is_active;
    lemma_first_where(activities, p);
    match active_index(activities) {
        Some(k) => {
            assert forall|j: int| 0 <= j < k implies !(#[trigger] activities[j]).is_active by {
                assert(!p(activities[j]));
            }
            assert forall|j: int| #[trigger] is_the_active(activities, j) implies j == k by {
                if j < k {
                    assert(!p(activities[j]));
                } else if k < j {
                    assert(!activities[k].is_active);
                }
            }
        },
        None => {
            assert forall|j: int| !#[trigger] is_the_active(activities, j) by {
                if 0 <= j < activities.len() {
                    assert(!p(activities[j]));
                }
            }
        },
    }
}

/// Whether the rows of a menu are those for switching: the names of the activities
/// at the given places, which are all but the active one, in the order asked for,
/// and then the active one with its mark.
pub open spec fn is_switch_menu(
    items: Seq<Seq<char>>,
    activities: Seq<Activity>,
    order: Order,
    places: Seq<int>,
) -> bool {
    &&& in_order_asked(activities, order, places)
    &&& forall|k: int| #[trigger]
        places.contains(k) <==> 0 <= k < activities.len() && !is_the_active(activities, k)
    &&& forall|i: int|
        0 <= i < places.len() ==> #[trigger] items[i] == activities[places[i]].name@
    &&& if exists|k: int| is_the_active(activities, k) {
        &&& items.len() == places.len() + 1
        &&& forall|k: int| #[trigger]
            is_the_active(activities, k) ==> items.last() == activities[k].name@ + " (current)"@
    } else {
        items.len() == places.len()
    }
}

/// The menu for switching lists every activity but the active one, in the order
/// asked for: by recency, the first row thus names the one that was used last
/// before. The active one comes last, with a mark. Where there is no other
/// activity there is no menu.
pub proof fn law_switch_menu_lists_the_others(
    order: Order,
    activities: Vec<Activity>,
    shown: Seq<char>,
)
    ensures
        ({
            let p = replied(
                AfterReply::SwitchActivities { order },
                Ok(Response::Activities(activities)),
                shown,
            );
            if exists|k: int|
                0 <= k < activities@.len() && !#[trigger] is_the_active(activities@, k) {
                p.step matches StepView::Pick { prompt, items, then } && prompt
                    == "Switch to activity:"@ && then == (AfterPick::Switch { activities, order })
                    && exists|places: Seq<int>| #[trigger]
                    is_switch_menu(items, activities@, order, places)
            } else {
                succeeded(p) && p.notes == seq![
                    if activities@.len() == 0 {
                        NOTHING_TO_SWITCH_TO@
                    } else {
                        ONLY_ACTIVE@
                    },
                ]
            }
        }),
{
    let all = activities@;
    let p = replied(
        AfterReply::SwitchActivities { order },
        Ok(Response::Activities(activities)),
        shown,
    );
    lemma_the_active(all);
    match active_index(all) {
        Some(k) => {
            let others = all.remove(k);
            let listed = ordered(others, order);
            let inner = lemma_listed_places(others, order, None);
            let back = |i: int|
                if i < k {
                    i
                } else {
                    i + 1
                };
            let places = inner.map_values(back);
            assert forall|i: int| 0 <= i < places.len() implies 0 <= #[trigger] places[i]
                < all.len() && places[i] != k && listed[i] == all[places[i]] by {
                assert(places[i] == back(inner[i]));
            }
            assert forall|i: int, j: int|
                #![trigger places[i], places[j]]
                0 <= i < j < places.len() implies {
                let a = all[places[i]].last_active_seq;
                let b = all[places[j]].last_active_seq;
                match order {
                    Order::Static => places[i] < places[j],
                    Order::Mru => a > b || (a == b && places[i] < places[j]),
                }
            } by {
                assert(places[i] == back(inner[i]));
                assert(places[j] == back(inner[j]));
                assert(others[inner[i]] == all[places[i]]);
                assert(others[inner[j]] == all[places[j]]);
            }
            assert forall|j: int| #[trigger] places.contains(j) <==> 0 <= j < all.len()
                && !is_the_active(all, j) by {
                if places.contains(j) {
                    let i = choose|i: int| 0 <= i < places.len() && places[i] == j;
                }
                if 0 <= j < all.len() && j != k {
                    let h = if j < k {
                        j
                    } else {
                        j - 1
                    };
                    assert(inner.contains(h));
                    let i = choose|i: int| 0 <= i < inner.len() && inner[i] == h;
                    assert(places[i] == j);
                }
            }
            let items = names(listed).push(all[k].name@ + " (current)"@);
            assert(is_the_active(all, k));
            if listed.len() > 0 {
                assert(places.contains(places[0]));
                assert(names(listed).len() > 0);
                assert forall|i: int| 0 <= i < places.len() implies #[trigger] items[i]
                    == all[places[i]].name@ by {
                    assert(items[i] == names(listed)[i]);
                }
                assert(is_switch_menu(items, all, order, places));
                assert(p.step->Pick_items == items);
            } else {
                assert forall|j: int| 0 <= j < all.len() implies #[trigger] is_the_active(
                    all,
                    j,
                ) by {
                    if j != k {
                        assert(places.contains(j));
                    }
                }
            }
        },
        None => {
            let listed = ordered(all, order);
            let places = lemma_listed_places(all, order, None);
            let items = names(listed);
            if all.len() > 0 {
                assert(!is_the_active(all, 0));
                assert(places.contains(0));
                assert(is_switch_menu(items, all, order, places));
                assert(p.step->Pick_items == items);
            }
        },
    }
}

/// In order of recency, the first row of the menu for switching names the activity
/// that was used last, apart from the active one; among several that are equally
/// recent, the first that the compositor lists.
pub proof fn law_first_row_was_used_last(activities: Vec<Activity>, shown: Seq<char>, k: int)
    requires
        0 <= k < activities@.len(),
        !is_the_active(activities@, k),
        forall|j: int|
            0 <= j < activities@.len() && j != k && !#[trigger] is_the_active(activities@, j) ==> {
                let a = activities@[k].last_active_seq;
                let b = activities@[j].last_active_seq;
                a > b || (a == b && k < j)
            },
    ensures
        replied(
            AfterReply::SwitchActivities { order: Order::Mru },
            Ok(Response::Activities(activities)),
            shown,
        ).step matches StepView::Pick { items, .. } && items[0] == activities@[k].name@,
{
    law_switch_menu_lists_the_others(Order::Mru, activities, shown);
    let all = activities@;
    let items = replied(
        AfterReply::SwitchActivities { order: Order::Mru },
        Ok(Response::Activities(activities)),
        shown,
    ).step->Pick_items;
    let places = choose|places: Seq<int>| #[trigger]
        is_switch_menu(items, all, Order::Mru, places);
    assert(places.contains(k));
    let i = choose|i: int| 0 <= i < places.len() && places[i] == k;
    assert(places.contains(places[0]));
    assert(!is_the_active(all, places[0]));
    assert(items[0] == all[places[0]].name@);
    if 0 < i {
        assert(places[0] != k);
    }
}

/// Choosing a row of the menu for switching asks to switch to the activity of that
/// name, and the marked row asks for the active one. A name that is unknown by then
/// is reported as that of a missing activity.
pub proof fn law_switch_choice(
    activities: Vec<Activity>,
    order: Order,
    row: String,
    message: String,
    shown: Seq<char>,
)
    requires
        message@ == "activity not found"@,
    ensures
        picked_one(
            AfterPick::Switch { activities, order },
            Ok(PickerOutcome::Selected(row)),
        ).step matches StepView::Send {
            request: RequestView::Action(
                ActionView::SwitchActivity { activity: ActivityReferenceView::Name(name) },
            ),
            then,
        } && {
            &&& forall|k: int| #[trigger]
                is_the_active(activities@, k) && row@ == activities@[k].name@ + " (current)"@
                    ==> name == activities@[k].name@
            &&& (forall|k: int| #[trigger]
                is_the_active(activities@, k) ==> row@ != activities@[k].name@ + " (current)"@)
                ==> name == row@
            &&& succeeded(replied(then, Ok(Response::Handled), shown))
            &&& fails_with(
                replied(then, Err(IpcError::Server(message)), shown),
                CliErrorView::ActivityNotFound(name),
            )
        },
{
    lemma_the_active(activities@);
    match active_index(activities@) {
        Some(k) => {
            assert(is_the_active(activities@, k));
        },
        None => {},
    }
}

/// Whether a menu lists all activities, the active one first and the others as the
/// compositor lists them.
pub open spec fn begins_with_the_active(items: Seq<Seq<char>>, activities: Seq<Activity>) -> bool {
    &&& items.len() == activities.len()
    &&& forall|k: int| #[trigger]
        is_the_active(activities, k) ==> items[0] == activities[k].name@ && forall|j: int|
            0 <= j < activities.len() && j != k ==> (#[trigger] activities[j]).name@ == items[if j
                < k {
                j + 1
            } else {
                j
            }]
    &&& (forall|k: int| !#[trigger] is_the_active(activities, k)) ==> forall|j: int|
        0 <= j < activities.len() ==> (#[trigger] activities[j]).name@ == items[j]
}

proof fn lemma_focused_first(activities: Seq<Activity>)
    ensures
        begins_with_the_active(focused_first(activities), activities),
{
    lemma_the_active(activities);
    let items = focused_first(activities);
    match active_index(activities) {
        Some(k) => {
            assert(is_the_active(activities, k));
            assert forall|j: int| 0 <= j < activities.len() && j != k implies (
            #[trigger] activities[j]).name@ == items[if j < k {
                j + 1
            } else {
                j
            }] by {
                if j < k {
                    assert(activities.remove(k)[j] == activities[j]);
                } else {
                    assert(activities.remove(k)[j - 1] == activities[j]);
                }
            }
        },
        None => {},
    }
}

/// The menus of activities for renaming one and for moving a workspace to one list
/// all of them, the active one first. Where there is none there is no menu.
pub proof fn law_menus_begin_with_the_active(
    new_name: String,
    follow: FollowMode,
    workspace: Option<u64>,
    activities: Vec<Activity>,
    shown: Seq<char>,
)
    ensures
        ({
            let reply = Ok(Response::Activities(activities));
            let renaming = replied(AfterReply::RenameActivities { new_name }, reply, shown);
            let moving = replied(
                AfterReply::MoveWorkspaceActivities { follow, workspace },
                reply,
                shown,
            );
            if activities@.len() == 0 {
                succeeded(renaming) && renaming.notes == seq![NOTHING_TO_RENAME@] && succeeded(
                    moving,
                ) && moving.notes == seq![NOTHING_TO_MOVE_TO@]
            } else {
                &&& renaming.step matches StepView::Pick { prompt, items, then } && prompt
                    == "Rename activity:"@ && begins_with_the_active(items, activities@) && then
                    == (AfterPick::Rename { new_name })
                &&& moving.step matches StepView::Pick { prompt, items, then } && prompt
                    == "Move workspace to activity:"@ && begins_with_the_active(
                    items,
                    activities@,
                ) && then == (AfterPick::MoveWorkspace { follow, workspace })
            }
        }),
{
    lemma_focused_first(activities@);
}

/// Choosing a row of the menu for renaming asks to give the activity of that name
/// the new name. A name that is unknown by then is reported as that of a missing
/// activity.
pub proof fn law_rename_choice(new_name: String, row: String, message: String, shown: Seq<char>)
    requires
        message@ == "activity not found"@,
    ensures
        picked_one(
            AfterPick::Rename { new_name },
            Ok(PickerOutcome::Selected(row)),
        ).step matches StepView::Send { request, then } && {
            &&& request == RequestView::Action(
                ActionView::RenameActivity {
                    activity: ActivityReferenceView::Name(row@),
                    name: new_name@,
                },
            )
            &&& succeeded(replied(then, Ok(Response::Handled), shown))
            &&& fails_with(
                replied(then, Err(IpcError::Server(message)), shown),
                CliErrorView::ActivityNotFound(row@),
            )
        },
{
}

} // verus!
