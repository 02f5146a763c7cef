//! The `list` subcommand: the activities with what is in them.
//!
//! Three requests are made, always in the same order: for the activities, the
//! workspaces and the windows. What they say is joined and then shown as a
//! table, as JSON, or as chosen columns.

use crate::cli::Order;
use crate::error::{Cause, CauseView, CliError, CliErrorView, Failure, FailureView, IoKind, typed,
    typed_in};
use crate::flow::{AfterPrint, AfterReply, Output, OutputView, Progress, ProgressView, Step,
    StepView, failed, done, plain, sending};
use crate::ipc::{Activity, Reply, Request, RequestView, Response, Window, Workspace};
use crate::ipc_helpers::{activities_in, expect_activities, expect_windows, expect_workspaces,
    in_listed_order, ordered, windows_in, workspaces_in};
use crate::move_window::snapshot::{find_named, has_id, has_name, named};
use crate::text::{byte_len, decimal, decimal_text, join_texts, joined, lemma_joined_front,
    lemma_split_joined, pad, padded, split, split_text, str_eq, text_of, texts};
use vstd::prelude::*;
use vstd::string::*;

verus! {

/// What to list, and how.
#[derive(Debug)]
pub struct ListOpts {
    /// As JSON.
    pub json: bool,
    /// Only these columns, separated by commas.
    pub format: Option<String>,
    /// Only the activity with this name.
    pub activity: Option<String>,
    pub order: Order,
}

// ---- Columns ---------------------------------------------------------------

/// A column that can be asked for.
#[derive(Debug, Clone, Copy, PartialEq, Eq, Structural)]
pub enum Field {
    Name,
    Kind,
    Focused,
    WorkspaceCount,
    WindowCount,
}

/// The columns that can be asked for.
pub const FORMAT_FIELDS_HINT: &'static str = "name|kind|focused|workspace_count|window_count";

/// What a column is called.
pub open spec fn field_name(f: Field) -> Seq<char> {
    match f {
        Field::Name => "name"@,
        Field::Kind => "kind"@,
        Field::Focused => "focused"@,
        Field::WorkspaceCount => "workspace_count"@,
        Field::WindowCount => "window_count"@,
    }
}

/// The column with the given name.
pub open spec fn field_of(name: Seq<char>) -> Option<Field> {
    if name == "name"@ {
        Some(Field::Name)
    } else if name == "kind"@ {
        Some(Field::Kind)
    } else if name == "focused"@ {
        Some(Field::Focused)
    } else if name == "workspace_count"@ {
        Some(Field::WorkspaceCount)
    } else if name == "window_count"@ {
        Some(Field::WindowCount)
    } else {
        None
    }
}

fn parse_field(name: &str) -> (r: Option<Field>)
    ensures
        r == field_of(name@),
{
    if str_eq(name, "name") {
        Some(Field::Name)
    } else if str_eq(name, "kind") {
        Some(Field::Kind)
    } else if str_eq(name, "focused") {
        Some(Field::Focused)
    } else if str_eq(name, "workspace_count") {
        Some(Field::WorkspaceCount)
    } else if str_eq(name, "window_count") {
        Some(Field::WindowCount)
    } else {
        None
    }
}

/// The complaint about no column at all.
pub open spec fn empty_format() -> Seq<char> {
    "empty --format spec; expected comma-separated subset of "@ + FORMAT_FIELDS_HINT@
}

/// The complaint about a column that there is not.
pub open spec fn unknown_field(name: Seq<char>) -> Seq<char> {
    "unknown field: "@ + name + "; expected one of "@ + FORMAT_FIELDS_HINT@
}

/// The complaint about a column that was asked for before.
pub open spec fn duplicate_field(name: Seq<char>) -> Seq<char> {
    "duplicate field: "@ + name
}

/// The columns with the given names, behind those that were read before; the
/// first name that is not a column, or is one for the second time, is refused.
pub open spec fn fields_of(parts: Seq<Seq<char>>, before: Seq<Field>) -> Result<
    Seq<Field>,
    CliErrorView,
>
    decreases parts.len(),
{
    if parts.len() == 0 {
        Ok(before)
    } else {
        match field_of(parts[0]) {
            None => Err(CliErrorView::Usage(unknown_field(parts[0]))),
            Some(f) => if before.contains(f) {
                Err(CliErrorView::Usage(duplicate_field(parts[0])))
            } else {
                fields_of(parts.drop_first(), before.push(f))
            },
        }
    }
}

/// The columns that `spec` asks for.
pub open spec fn format_fields(spec: Seq<char>) -> Result<Seq<Field>, CliErrorView> {
    if spec.len() == 0 {
        Err(CliErrorView::Usage(empty_format()))
    } else {
        fields_of(split(spec, ','), Seq::empty())
    }
}

/// What a parsed list of columns holds.
pub open spec fn fields_view(r: Result<Vec<Field>, CliError>) -> Result<Seq<Field>, CliErrorView> {
    match r {
        Ok(v) => Ok(v@),
        Err(e) => Err(e@),
    }
}

fn has_field(fields: &Vec<Field>, f: Field) -> (r: bool)
    ensures
        r == fields@.contains(f),
{
    let mut i: usize = 0;
    while i < fields.len()
        invariant
            i <= fields@.len(),
            forall|j: int| 0 <= j < i ==> fields@[j] != f,
        decreases fields@.len() - i,
    {
        if fields[i] == f {
            return true;
        }
        i = i + 1;
    }
    false
}

/// Reads a list of columns. Names are taken as they are, with any white space.
pub fn parse_format_spec(spec: &str) -> (r: Result<Vec<Field>, CliError>)
    ensures
        fields_view(r) == format_fields(spec@),
{
    if spec.is_empty() {
        let message = "empty --format spec; expected comma-separated subset of ".to_owned().concat(
            FORMAT_FIELDS_HINT,
        );
        return Err(CliError::Usage(message));
    }
    let parts = split_text(spec, ',');
    let ghost all = texts(parts@);
    let mut fields: Vec<Field> = Vec::new();
    let mut i: usize = 0;
    proof {
        assert(all.skip(0) =~= all);
        assert(fields@ =~= Seq::<Field>::empty());
    }
    while i < parts.len()
        invariant
            i <= parts@.len(),
            all == texts(parts@),
            fields_of(all.skip(i as int), fields@) == fields_of(all, Seq::empty()),
            spec@.len() > 0,
            all == split(spec@, ','),
        decreases parts@.len() - i,
    {
        proof {
            assert(all.skip(i as int)[0] == parts@[i as int]@);
            assert(all.skip(i as int).drop_first() =~= all.skip(i + 1));
        }
        match parse_field(parts[i].as_str()) {
            None => {
                let mut message = "unknown field: ".to_owned();
                message.append(parts[i].as_str());
                message.append("; expected one of ");
                message.append(FORMAT_FIELDS_HINT);
                return Err(CliError::Usage(message));
            },
            Some(f) => {
                if has_field(&fields, f) {
                    let message = "duplicate field: ".to_owned().concat(parts[i].as_str());
                    return Err(CliError::Usage(message));
                }
                fields.push(f);
            },
        }
        i = i + 1;
    }
    proof {
        assert(all.skip(i as int).len() == 0);
    }
    Ok(fields)
}

// ---- The joined view -------------------------------------------------------

/// Where an activity comes from.
#[derive(Debug, Clone, Copy, PartialEq, Eq, Structural)]
pub enum ActivityKind {
    /// It is declared in the config file.
    Config,
    /// It was created while the compositor was running.
    Runtime,
}

impl ActivityKind {
    /// What the kind is called.
    pub open spec fn text(self) -> Seq<char> {
        match self {
            ActivityKind::Config => "config"@,
            ActivityKind::Runtime => "runtime"@,
        }
    }

    /// What the kind is called in a table.
    pub open spec fn column(self) -> Seq<char> {
        match self {
            ActivityKind::Config => "(config)"@,
            ActivityKind::Runtime => "(runtime)"@,
        }
    }

    /// What the kind is called.
    pub fn as_str(&self) -> (r: &'static str)
        ensures
            r@ == self.text(),
    {
        match self {
            ActivityKind::Config => "config",
            ActivityKind::Runtime => "runtime",
        }
    }

    fn column_str(&self) -> (r: &'static str)
        ensures
            r@ == self.column(),
    {
        match self {
            ActivityKind::Config => "(config)",
            ActivityKind::Runtime => "(runtime)",
        }
    }
}

/// A workspace in the list.
#[derive(Debug, PartialEq, Eq)]
pub struct WorkspaceRow {
    pub id: u64,
    pub name: Option<String>,
    pub sticky: bool,
}

/// What a [`WorkspaceRow`] holds.
pub struct WorkspaceRowView {
    pub id: u64,
    pub name: Option<Seq<char>>,
    pub sticky: bool,
}

impl View for WorkspaceRow {
    type V = WorkspaceRowView;

    open spec fn view(&self) -> WorkspaceRowView {
        WorkspaceRowView { id: self.id, name: text_of(self.name), sticky: self.sticky }
    }
}

/// What rows of workspaces hold.
pub open spec fn workspace_rows(rows: Seq<WorkspaceRow>) -> Seq<WorkspaceRowView> {
    rows.map_values(|w: WorkspaceRow| w@)
}

/// An activity in the list.
#[derive(Debug, PartialEq, Eq)]
pub struct ActivityRow {
    pub name: String,
    pub kind: ActivityKind,
    pub focused: bool,
    pub workspaces: Vec<WorkspaceRow>,
    pub window_count: usize,
}

/// What an [`ActivityRow`] holds.
#[verifier::ext_equal]
pub struct ActivityRowView {
    pub name: Seq<char>,
    pub kind: ActivityKind,
    pub focused: bool,
    pub workspaces: Seq<WorkspaceRowView>,
    pub window_count: usize,
}

impl View for ActivityRow {
    type V = ActivityRowView;

    open spec fn view(&self) -> ActivityRowView {
        ActivityRowView {
            name: self.name@,
            kind: self.kind,
            focused: self.focused,
            workspaces: workspace_rows(self.workspaces@),
            window_count: self.window_count,
        }
    }
}

/// The list.
#[derive(Debug, PartialEq, Eq)]
pub struct ListView {
    pub activities: Vec<ActivityRow>,
}

impl View for ListView {
    type V = Seq<ActivityRowView>;

    open spec fn view(&self) -> Seq<ActivityRowView> {
        self.activities@.map_values(|a: ActivityRow| a@)
    }
}

/// Whether a window is on the workspace with the given id.
pub open spec fn is_on(workspace_id: u64) -> spec_fn(Window) -> bool {
    |w: Window| w.workspace_id == Some(workspace_id)
}

/// How many windows are on a workspace.
pub open spec fn windows_on(windows: Seq<Window>, workspace_id: u64) -> nat {
    windows.filter(is_on(workspace_id)).len()
}

/// Whether a workspace belongs to the activity with the given id.
pub open spec fn belongs_to(activity_id: u64) -> spec_fn(Workspace) -> bool {
    |w: Workspace| w.activities@.contains(activity_id)
}

/// The workspaces of an activity, in the order of the list.
pub open spec fn workspaces_of(workspaces: Seq<Workspace>, activity_id: u64) -> Seq<Workspace> {
    workspaces.filter(belongs_to(activity_id))
}

/// How many windows are on the given workspaces.
pub open spec fn windows_on_all(windows: Seq<Window>, workspaces: Seq<Workspace>) -> nat
    decreases workspaces.len(),
{
    if workspaces.len() == 0 {
        0
    } else {
        windows_on_all(windows, workspaces.drop_last()) + windows_on(
            windows,
            workspaces.last().id,
        )
    }
}

/// The number, or the largest one that fits.
pub open spec fn capped(n: nat) -> usize {
    if n <= usize::MAX {
        n as usize
    } else {
        usize::MAX
    }
}

/// The row of a workspace.
pub open spec fn workspace_row(w: Workspace) -> WorkspaceRowView {
    WorkspaceRowView { id: w.id, name: text_of(w.name), sticky: w.is_sticky }
}

/// The row of an activity.
pub open spec fn activity_row(
    a: Activity,
    workspaces: Seq<Workspace>,
    windows: Seq<Window>,
) -> ActivityRowView {
    let there = workspaces_of(workspaces, a.id);
    ActivityRowView {
        name: a.name@,
        kind: if a.is_config_declared {
            ActivityKind::Config
        } else {
            ActivityKind::Runtime
        },
        focused: a.is_active,
        workspaces: there.map_values(|w: Workspace| workspace_row(w)),
        window_count: capped(windows_on_all(windows, there)),
    }
}

/// The rows of activities.
pub open spec fn activity_rows(
    activities: Seq<Activity>,
    workspaces: Seq<Workspace>,
    windows: Seq<Window>,
) -> Seq<ActivityRowView> {
    activities.map_values(|a: Activity| activity_row(a, workspaces, windows))
}

/// How many windows are on a workspace. Windows that are on none are not
/// counted.
fn count_windows(windows: &Vec<Window>, workspace_id: u64) -> (r: usize)
    ensures
        r == windows_on(windows@, workspace_id),
{
    let ghost p = is_on(workspace_id);
    let mut n: usize = 0;
    let mut i: usize = 0;
    proof {
        reveal(Seq::filter);
        assert(windows@.take(0).filter(p).len() == 0);
    }
    while i < windows.len()
        invariant
            i <= windows@.len(),
            p == is_on(workspace_id),
            n == windows@.take(i as int).filter(p).len(),
            n <= i,
        decreases windows@.len() - i,
    {
        let here = match windows[i].workspace_id {
            Some(id) => id == workspace_id,
            None => false,
        };
        proof {
            let next = windows@.take(i + 1);
            assert(next.drop_last() =~= windows@.take(i as int));
            assert(next.last() == windows@[i as int]);
            reveal(Seq::filter);
        }
        if here {
            n = n + 1;
        }
        i = i + 1;
    }
    proof {
        assert(windows@.take(i as int) =~= windows@);
    }
    n
}

/// The row of an activity.
fn build_row(a: &Activity, workspaces: &Vec<Workspace>, windows: &Vec<Window>) -> (r: ActivityRow)
    ensures
        r@ == activity_row(*a, workspaces@, windows@),
{
    let ghost p = belongs_to(a.id);
    let ghost row = |w: Workspace| workspace_row(w);
    let mut rows: Vec<WorkspaceRow> = Vec::new();
    let mut count: usize = 0;
    let mut i: usize = 0;
    proof {
        reveal(Seq::filter);
        assert(workspace_rows(rows@) =~= workspaces@.take(0).filter(p).map_values(row));
        assert(windows_on_all(windows@, workspaces@.take(0).filter(p)) == 0);
    }
    while i < workspaces.len()
        invariant
            i <= workspaces@.len(),
            p == belongs_to(a.id),
            row == (|w: Workspace| workspace_row(w)),
            workspace_rows(rows@) == workspaces@.take(i as int).filter(p).map_values(row),
            count == capped(windows_on_all(windows@, workspaces@.take(i as int).filter(p))),
        decreases workspaces@.len() - i,
    {
        let w = &workspaces[i];
        let ghost before = rows@;
        let ghost seen = workspaces@.take(i as int).filter(p);
        proof {
            let next = workspaces@.take(i + 1);
            assert(next.drop_last() =~= workspaces@.take(i as int));
            assert(next.last() == *w);
            reveal(Seq::filter);
            if p(*w) {
                assert(next.filter(p) == seen.push(*w));
                assert(seen.push(*w).drop_last() =~= seen);
                assert(seen.push(*w).map_values(row) =~= seen.map_values(row).push(
                    workspace_row(*w),
                ));
            }
        }
        if has_id(&w.activities, a.id) {
            rows.push(WorkspaceRow { id: w.id, name: w.name.clone(), sticky: w.is_sticky });
            let here = count_windows(windows, w.id);
            count = if here <= usize::MAX - count {
                count + here
            } else {
                usize::MAX
            };
            proof {
                assert(workspace_rows(rows@) =~= workspace_rows(before).push(workspace_row(*w)));
            }
        }
        i = i + 1;
    }
    proof {
        assert(workspaces@.take(i as int) =~= workspaces@);
    }
    ActivityRow {
        name: a.name.clone(),
        kind: if a.is_config_declared {
            ActivityKind::Config
        } else {
            ActivityKind::Runtime
        },
        focused: a.is_active,
        workspaces: rows,
        window_count: count,
    }
}

/// Joins activities with the workspaces and windows in them.
pub fn join_listed(
    activities: &Vec<&Activity>,
    workspaces: &Vec<Workspace>,
    windows: &Vec<Window>,
) -> (r: ListView)
    ensures
        r@ == activity_rows(activities@.unref(), workspaces@, windows@),
{
    let mut rows: Vec<ActivityRow> = Vec::new();
    let mut i: usize = 0;
    while i < activities.len()
        invariant
            i <= activities@.len(),
            rows@.len() == i,
            forall|j: int|
                0 <= j < i ==> (#[trigger] rows@[j])@ == activity_row(
                    *activities@[j],
                    workspaces@,
                    windows@,
                ),
        decreases activities@.len() - i,
    {
        rows.push(build_row(activities[i], workspaces, windows));
        i = i + 1;
    }
    let view = ListView { activities: rows };
    proof {
        assert(view@ =~= activity_rows(activities@.unref(), workspaces@, windows@));
    }
    view
}

/// Joins activities with the workspaces and windows in them. The activities
/// keep their order, and so do the workspaces of each.
pub fn join(
    activities: Vec<Activity>,
    workspaces: Vec<Workspace>,
    windows: Vec<Window>,
) -> (r: ListView)
    ensures
        r@ == activity_rows(activities@, workspaces@, windows@),
{
    let listed = in_listed_order(&activities, Order::Static);
    join_listed(&listed, &workspaces, &windows)
}

/// Only the activities with the given name, if one is given.
pub open spec fn narrowed(activities: Seq<Activity>, name: Option<String>) -> Seq<Activity> {
    match name {
        None => activities,
        Some(n) => activities.filter(has_name(n@)),
    }
}

fn narrow<'a>(activities: Vec<&'a Activity>, name: &Option<String>) -> (r: Vec<&'a Activity>)
    ensures
        r@.unref() == narrowed(activities@.unref(), *name),
{
    match name {
        None => activities,
        Some(n) => {
            let ghost all = activities@.unref();
            let ghost p = has_name(n@);
            let mut out: Vec<&'a Activity> = Vec::new();
            let mut i: usize = 0;
            proof {
                reveal(Seq::filter);
                assert(out@.unref() =~= all.take(0).filter(p));
            }
            while i < activities.len()
                invariant
                    i <= activities@.len(),
                    all == activities@.unref(),
                    p == has_name(n@),
                    out@.unref() == all.take(i as int).filter(p),
                decreases activities@.len() - i,
            {
                let a = activities[i];
                let ghost before = out@;
                if str_eq(a.name.as_str(), n.as_str()) {
                    out.push(a);
                }
                proof {
                    let next = all.take(i + 1);
                    assert(next.drop_last() =~= all.take(i as int));
                    assert(next.last() == *a);
                    reveal(Seq::filter);
                    if p(*a) {
                        assert(out@.unref() =~= before.unref().push(*a));
                    }
                }
                i = i + 1;
            }
            proof {
                assert(all.take(i as int) =~= all);
            }
            out
        },
    }
}

// ---- As a table ------------------------------------------------------------

/// `singular` for one, `plural` for any other number.
pub fn pluralise<'a>(n: usize, singular: &'a str, plural: &'a str) -> (r: &'a str)
    ensures
        r@ == (if n == 1 {
            singular@
        } else {
            plural@
        }),
{
    if n == 1 {
        singular
    } else {
        plural
    }
}

/// A number and what it counts.
pub open spec fn counted(n: usize, singular: Seq<char>, plural: Seq<char>) -> Seq<char> {
    decimal(n as nat) + " "@ + (if n == 1 {
        singular
    } else {
        plural
    })
}

fn count_text(n: usize, singular: &str, plural: &str) -> (r: String)
    ensures
        r@ == counted(n, singular@, plural@),
{
    let mut s = decimal_text(n as u64);
    s.append(" ");
    s.append(pluralise(n, singular, plural));
    s
}

/// The larger of two numbers.
pub open spec fn larger(a: usize, b: usize) -> usize {
    if a >= b {
        a
    } else {
        b
    }
}

/// The width of the column of names: the longest name, in bytes.
pub open spec fn name_width(rows: Seq<ActivityRowView>) -> usize
    decreases rows.len(),
{
    if rows.len() == 0 {
        0
    } else {
        larger(name_width(rows.drop_last()), byte_len(rows.last().name))
    }
}

/// The width of the column of kinds.
pub open spec fn kind_width(rows: Seq<ActivityRowView>) -> usize
    decreases rows.len(),
{
    if rows.len() == 0 {
        0
    } else {
        larger(
            kind_width(rows.drop_last()),
            match rows.last().kind {
                ActivityKind::Config => 8,
                ActivityKind::Runtime => 9,
            },
        )
    }
}

/// A line of the table: a star for the active activity, its name, its kind and
/// what is in it.
pub open spec fn table_line(row: ActivityRowView, name_width: usize, kind_width: usize) -> Seq<char> {
    (if row.focused {
        "* "@
    } else {
        "  "@
    }) + padded(row.name, name_width as nat) + "  "@ + padded(
        row.kind.column(),
        kind_width as nat,
    ) + "  ["@ + counted(row.workspaces.len() as usize, "workspace"@, "workspaces"@) + ", "@
        + counted(row.window_count, "window"@, "windows"@) + "]\n"@
}

/// The lines of the table for the first rows.
pub open spec fn table_lines(
    rows: Seq<ActivityRowView>,
    name_width: usize,
    kind_width: usize,
) -> Seq<char>
    decreases rows.len(),
{
    if rows.len() == 0 {
        Seq::empty()
    } else {
        table_lines(rows.drop_last(), name_width, kind_width) + table_line(
            rows.last(),
            name_width,
            kind_width,
        )
    }
}

/// The table.
pub open spec fn table(rows: Seq<ActivityRowView>) -> Seq<char> {
    table_lines(rows, name_width(rows), kind_width(rows))
}

/// The list as a table. An empty list is an empty text.
pub fn render_plain(view: &ListView) -> (r: String)
    ensures
        r@ == table(view@),
{
    let mut name_w: usize = 0;
    let mut kind_w: usize = 0;
    let mut i: usize = 0;
    let ghost all = view@;
    proof {
        assert(all.take(0).len() == 0);
    }
    while i < view.activities.len()
        invariant
            i <= view.activities@.len(),
            all == view@,
            name_w == name_width(all.take(i as int)),
            kind_w == kind_width(all.take(i as int)),
        decreases view.activities@.len() - i,
    {
        let a = &view.activities[i];
        proof {
            let next = all.take(i + 1);
            assert(next.drop_last() =~= all.take(i as int));
            assert(next.last() == a@);
        }
        let len: usize = a.name.as_str().len();
        if name_w < len {
            name_w = len;
        }
        let kind_len: usize = match a.kind {
            ActivityKind::Config => 8,
            ActivityKind::Runtime => 9,
        };
        if kind_w < kind_len {
            kind_w = kind_len;
        }
        i = i + 1;
    }
    proof {
        assert(all.take(i as int) =~= all);
    }
    let mut out = String::new();
    let mut k: usize = 0;
    proof {
        assert(out@ =~= table_lines(all.take(0), name_w, kind_w));
    }
    while k < view.activities.len()
        invariant
            k <= view.activities@.len(),
            all == view@,
            out@ == table_lines(all.take(k as int), name_w, kind_w),
        decreases view.activities@.len() - k,
    {
        let a = &view.activities[k];
        let ghost before = out@;
        let mut line = (if a.focused {
            "* "
        } else {
            "  "
        }).to_owned();
        line.append(pad(a.name.as_str(), name_w).as_str());
        line.append("  ");
        line.append(pad(a.kind.column_str(), kind_w).as_str());
        line.append("  [");
        line.append(count_text(a.workspaces.len(), "workspace", "workspaces").as_str());
        line.append(", ");
        line.append(count_text(a.window_count, "window", "windows").as_str());
        line.append("]\n");
        out.append(line.as_str());
        proof {
            let next = all.take(k + 1);
            assert(next.drop_last() =~= all.take(k as int));
            assert(next.last() == a@);
            assert(a@.workspaces.len() == a.workspaces@.len());
            assert(line@ == table_line(a@, name_w, kind_w));
        }
        k = k + 1;
    }
    proof {
        assert(all.take(k as int) =~= all);
    }
    out
}

// ---- As chosen columns -----------------------------------------------------

/// What a column says of an activity.
pub open spec fn field_text(row: ActivityRowView, f: Field) -> Seq<char> {
    match f {
        Field::Name => row.name,
        Field::Kind => row.kind.text(),
        Field::Focused => if row.focused {
            "true"@
        } else {
            "false"@
        },
        Field::WorkspaceCount => decimal((row.workspaces.len() as usize) as nat),
        Field::WindowCount => decimal(row.window_count as nat),
    }
}

/// A line with the chosen columns.
pub open spec fn field_line(row: ActivityRowView, fields: Seq<Field>) -> Seq<char> {
    joined(fields.map_values(|f: Field| field_text(row, f)), ","@) + "\n"@
}

/// The lines with the chosen columns.
pub open spec fn field_lines(rows: Seq<ActivityRowView>, fields: Seq<Field>) -> Seq<char>
    decreases rows.len(),
{
    if rows.len() == 0 {
        Seq::empty()
    } else {
        field_lines(rows.drop_last(), fields) + field_line(rows.last(), fields)
    }
}

fn field_value(a: &ActivityRow, f: Field) -> (r: String)
    ensures
        r@ == field_text(a@, f),
{
    proof {
        assert(a@.workspaces.len() == a.workspaces@.len());
    }
    match f {
        Field::Name => a.name.clone(),
        Field::Kind => a.kind.as_str().to_owned(),
        Field::Focused => (if a.focused {
            "true"
        } else {
            "false"
        }).to_owned(),
        Field::WorkspaceCount => decimal_text(a.workspaces.len() as u64),
        Field::WindowCount => decimal_text(a.window_count as u64),
    }
}

/// The list with the chosen columns, one line for each activity.
pub fn render_format(view: &ListView, fields: &Vec<Field>) -> (r: String)
    ensures
        r@ == field_lines(view@, fields@),
{
    let mut out = String::new();
    let mut i: usize = 0;
    let ghost all = view@;
    proof {
        assert(out@ =~= field_lines(all.take(0), fields@));
    }
    while i < view.activities.len()
        invariant
            i <= view.activities@.len(),
            all == view@,
            out@ == field_lines(all.take(i as int), fields@),
        decreases view.activities@.len() - i,
    {
        let a = &view.activities[i];
        let ghost before = out@;
        let mut columns: Vec<String> = Vec::new();
        let mut k: usize = 0;
        while k < fields.len()
            invariant
                k <= fields@.len(),
                columns@.len() == k,
                forall|j: int| 0 <= j < k ==> (#[trigger] columns@[j])@ == field_text(a@, fields@[j]),
            decreases fields@.len() - k,
        {
            columns.push(field_value(a, fields[k]));
            k = k + 1;
        }
        let mut line = join_texts(&columns, ",");
        line.append("\n");
        out.append(line.as_str());
        proof {
            assert(texts(columns@) =~= fields@.map_values(|f: Field| field_text(a@, f)));
            let next = all.take(i + 1);
            assert(next.drop_last() =~= all.take(i as int));
            assert(next.last() == a@);
            assert(line@ == field_line(a@, fields@));
        }
        i = i + 1;
    }
    proof {
        assert(all.take(i as int) =~= all);
    }
    out
}

// ---- As JSON ---------------------------------------------------------------

/// The version of the JSON document.
pub const SCHEMA_VERSION: u32 = 1;

/// A workspace in the JSON document.
#[derive(Debug, PartialEq, Eq)]
pub struct JsonWorkspace {
    pub id: u64,
    pub name: Option<String>,
    pub sticky: bool,
}

/// An activity in the JSON document.
#[derive(Debug, PartialEq, Eq)]
pub struct JsonActivity {
    pub name: String,
    pub kind: &'static str,
    pub focused: bool,
    pub workspaces: Vec<JsonWorkspace>,
    pub window_count: usize,
}

/// The JSON document.
#[derive(Debug, PartialEq, Eq)]
pub struct JsonEnvelope {
    pub schema_version: u32,
    pub activities: Vec<JsonActivity>,
}

/// What a [`JsonActivity`] holds.
#[verifier::ext_equal]
pub struct JsonActivityView {
    pub name: Seq<char>,
    pub kind: Seq<char>,
    pub focused: bool,
    pub workspaces: Seq<WorkspaceRowView>,
    pub window_count: usize,
}

/// What a [`JsonEnvelope`] holds.
#[verifier::ext_equal]
pub struct JsonEnvelopeView {
    pub schema_version: u32,
    pub activities: Seq<JsonActivityView>,
}

/// What workspaces in the JSON document hold.
pub open spec fn json_workspaces(list: Seq<JsonWorkspace>) -> Seq<WorkspaceRowView> {
    list.map_values(
        |w: JsonWorkspace| WorkspaceRowView { id: w.id, name: text_of(w.name), sticky: w.sticky },
    )
}

impl View for JsonActivity {
    type V = JsonActivityView;

    open spec fn view(&self) -> JsonActivityView {
        JsonActivityView {
            name: self.name@,
            kind: self.kind@,
            focused: self.focused,
            workspaces: json_workspaces(self.workspaces@),
            window_count: self.window_count,
        }
    }
}

impl View for JsonEnvelope {
    type V = JsonEnvelopeView;

    open spec fn view(&self) -> JsonEnvelopeView {
        JsonEnvelopeView {
            schema_version: self.schema_version,
            activities: self.activities@.map_values(|a: JsonActivity| a@),
        }
    }
}

/// An activity in the JSON document.
pub open spec fn json_activity(row: ActivityRowView) -> JsonActivityView {
    JsonActivityView {
        name: row.name,
        kind: row.kind.text(),
        focused: row.focused,
        workspaces: row.workspaces,
        window_count: row.window_count,
    }
}

/// The JSON document of a list.
pub open spec fn json_envelope(rows: Seq<ActivityRowView>) -> JsonEnvelopeView {
    JsonEnvelopeView {
        schema_version: SCHEMA_VERSION,
        activities: rows.map_values(|row: ActivityRowView| json_activity(row)),
    }
}

fn json_row(a: &ActivityRow) -> (r: JsonActivity)
    ensures
        r@ == json_activity(a@),
{
    let mut workspaces: Vec<JsonWorkspace> = Vec::new();
    let mut i: usize = 0;
    while i < a.workspaces.len()
        invariant
            i <= a.workspaces@.len(),
            workspaces@.len() == i,
            forall|j: int|
                0 <= j < i ==> {
                    &&& (#[trigger] workspaces@[j]).id == a.workspaces@[j].id
                    &&& text_of(workspaces@[j].name) == text_of(a.workspaces@[j].name)
                    &&& workspaces@[j].sticky == a.workspaces@[j].sticky
                },
        decreases a.workspaces@.len() - i,
    {
        let w = &a.workspaces[i];
        workspaces.push(JsonWorkspace { id: w.id, name: w.name.clone(), sticky: w.sticky });
        i = i + 1;
    }
    let r = JsonActivity {
        name: a.name.clone(),
        kind: a.kind.as_str(),
        focused: a.focused,
        workspaces,
        window_count: a.window_count,
    };
    proof {
        assert(r@.workspaces =~= a@.workspaces);
    }
    r
}

/// The list as a JSON document. An empty list is a document with an empty list
/// in it.
pub fn render_json(view: &ListView) -> (r: JsonEnvelope)
    ensures
        r@ == json_envelope(view@),
{
    let mut activities: Vec<JsonActivity> = Vec::new();
    let mut i: usize = 0;
    while i < view.activities.len()
        invariant
            i <= view.activities@.len(),
            activities@.len() == i,
            forall|j: int|
                0 <= j < i ==> (#[trigger] activities@[j])@ == json_activity(
                    view.activities@[j]@,
                ),
        decreases view.activities@.len() - i,
    {
        activities.push(json_row(&view.activities[i]));
        i = i + 1;
    }
    let r = JsonEnvelope { schema_version: SCHEMA_VERSION, activities };
    proof {
        assert(r@ =~= json_envelope(view@));
    }
    r
}

// ---- The subcommand --------------------------------------------------------

/// The columns that the options ask for, if any.
pub open spec fn asked_fields(opts: ListOpts) -> Result<Option<Seq<Field>>, CliErrorView> {
    match opts.format {
        None => Ok(None),
        Some(spec) => match format_fields(spec@) {
            Ok(fields) => Ok(Some(fields)),
            Err(e) => Err(e),
        },
    }
}

fn ask_fields(opts: &ListOpts) -> (r: Result<Option<Vec<Field>>, CliError>)
    ensures
        match r {
            Ok(Some(fields)) => asked_fields(*opts) == Ok::<Option<Seq<Field>>, CliErrorView>(
                Some(fields@),
            ),
            Ok(None) => asked_fields(*opts) == Ok::<Option<Seq<Field>>, CliErrorView>(None),
            Err(e) => asked_fields(*opts) == Err::<Option<Seq<Field>>, CliErrorView>(e@),
        },
{
    match &opts.format {
        None => Ok(None),
        Some(spec) => match parse_format_spec(spec.as_str()) {
            Ok(fields) => Ok(Some(fields)),
            Err(e) => Err(e),
        },
    }
}

/// The beginning of a listing: columns that there are not are refused before
/// the compositor is asked for anything.
pub open spec fn beginning(opts: ListOpts) -> ProgressView {
    match asked_fields(opts) {
        Err(e) => failed(typed(e)),
        Ok(_) => sending(RequestView::Activities, AfterReply::ListActivities { opts }),
    }
}

/// Lists the activities.
pub fn run(opts: ListOpts) -> (r: Progress)
    ensures
        r@ == beginning(opts),
{
    match ask_fields(&opts) {
        Err(e) => Progress::fail(e),
        Ok(_) => Progress::send(Request::Activities, AfterReply::ListActivities { opts }),
    }
}

/// Going on with the activities: one that there is not is refused before
/// anything else is asked for.
pub open spec fn with_activities(opts: ListOpts, reply: Reply) -> ProgressView {
    match activities_in(reply) {
        Err(e) => failed(typed_in(e, "requesting activities"@)),
        Ok(activities) => match opts.activity {
            Some(name) if named(activities@, name@) is None => failed(
                typed(CliErrorView::ActivityNotFound(name@)),
            ),
            _ => sending(
                RequestView::Workspaces,
                AfterReply::ListWorkspaces { opts, activities },
            ),
        },
    }
}

/// Goes on with the activities.
pub fn take_activities(opts: ListOpts, reply: Reply) -> (r: Progress)
    ensures
        r@ == with_activities(opts, reply),
{
    let activities = match expect_activities(reply) {
        Err(e) => {
            return Progress::fail_in(e, "requesting activities");
        },
        Ok(activities) => activities,
    };
    match &opts.activity {
        Some(name) => {
            if find_named(&activities, name.as_str()).is_none() {
                return Progress::fail(CliError::ActivityNotFound(name.clone()));
            }
        },
        None => {},
    }
    Progress::send(Request::Workspaces, AfterReply::ListWorkspaces { opts, activities })
}

/// Going on with the workspaces.
pub open spec fn with_workspaces(
    opts: ListOpts,
    activities: Vec<Activity>,
    reply: Reply,
) -> ProgressView {
    match workspaces_in(reply) {
        Err(e) => failed(typed_in(e, "requesting workspaces"@)),
        Ok(workspaces) => sending(
            RequestView::Windows,
            AfterReply::ListWindows { opts, activities, workspaces },
        ),
    }
}

/// Goes on with the workspaces.
pub fn take_workspaces(opts: ListOpts, activities: Vec<Activity>, reply: Reply) -> (r: Progress)
    ensures
        r@ == with_workspaces(opts, activities, reply),
{
    match expect_workspaces(reply) {
        Err(e) => Progress::fail_in(e, "requesting workspaces"),
        Ok(workspaces) => Progress::send(
            Request::Windows,
            AfterReply::ListWindows { opts, activities, workspaces },
        ),
    }
}

/// The rows that the options ask for.
pub open spec fn listed_rows(
    opts: ListOpts,
    activities: Seq<Activity>,
    workspaces: Seq<Workspace>,
    windows: Seq<Window>,
) -> Seq<ActivityRowView> {
    activity_rows(narrowed(ordered(activities, opts.order), opts.activity), workspaces, windows)
}

/// What is printed.
pub open spec fn printing(output: OutputView) -> ProgressView {
    plain(StepView::Print { output, then: AfterPrint::List })
}

/// Printing the list.
pub open spec fn with_windows(
    opts: ListOpts,
    activities: Vec<Activity>,
    workspaces: Vec<Workspace>,
    reply: Reply,
) -> ProgressView {
    match (windows_in(reply), asked_fields(opts)) {
        (Err(e), _) => failed(typed_in(e, "requesting windows"@)),
        (Ok(_), Err(e)) => failed(typed(e)),
        (Ok(windows), Ok(fields)) => {
            let rows = listed_rows(opts, activities@, workspaces@, windows@);
            if opts.json {
                printing(OutputView::Json(json_envelope(rows)))
            } else {
                match fields {
                    Some(fields) => printing(OutputView::Text(field_lines(rows, fields))),
                    None => printing(OutputView::Text(table(rows))),
                }
            }
        },
    }
}

/// Prints the list.
pub fn take_windows(
    opts: ListOpts,
    activities: Vec<Activity>,
    workspaces: Vec<Workspace>,
    reply: Reply,
) -> (r: Progress)
    ensures
        r@ == with_windows(opts, activities, workspaces, reply),
{
    let windows = match expect_windows(reply) {
        Err(e) => {
            return Progress::fail_in(e, "requesting windows");
        },
        Ok(windows) => windows,
    };
    let fields = match ask_fields(&opts) {
        Err(e) => {
            return Progress::fail(e);
        },
        Ok(fields) => fields,
    };
    let listed = narrow(in_listed_order(&activities, opts.order), &opts.activity);
    let view = join_listed(&listed, &workspaces, &windows);
    let output = if opts.json {
        Output::Json(render_json(&view))
    } else {
        match fields {
            Some(fields) => Output::Text(render_format(&view, &fields)),
            None => Output::Text(render_plain(&view)),
        }
    };
    Progress::at(Step::Print { output, then: AfterPrint::List })
}

/// What a failure to print is.
pub open spec fn print_failure(f: FailureView) -> FailureView {
    match f.cause {
        CauseView::Io(io) if io.kind == IoKind::BrokenPipe => typed(CliErrorView::OutputPipeClosed),
        _ => f,
    }
}

/// Recognises that the reader of stdout went away. Only failures to print may
/// be handed in.
pub fn classify_write_err(err: Failure) -> (r: Failure)
    ensures
        r@ == print_failure(err@),
{
    let closed = match &err.cause {
        Cause::Io(io) => match io.kind {
            IoKind::BrokenPipe => true,
            _ => false,
        },
        _ => false,
    };
    if closed {
        Failure::new(CliError::OutputPipeClosed)
    } else {
        err
    }
}

/// The end of a listing.
pub open spec fn after_printing(written: Result<(), Failure>) -> ProgressView {
    match written {
        Ok(_) => done(),
        Err(f) => failed(print_failure(f@)),
    }
}

/// Ends a listing.
pub fn printed(written: Result<(), Failure>) -> (r: Progress)
    ensures
        r@ == after_printing(written),
{
    match written {
        Ok(_) => Progress::done(),
        Err(f) => Progress::at(Step::Finish { outcome: Err(classify_write_err(f)) }),
    }
}

// ---- Laws ------------------------------------------------------------------

/// The names of columns.
pub open spec fn field_names(fields: Seq<Field>) -> Seq<Seq<char>> {
    fields.map_values(|f: Field| field_name(f))
}

proof fn lemma_field_names()
    ensures
        forall|f: Field| field_of(#[trigger] field_name(f)) == Some(f),
        forall|f: Field| !(#[trigger] field_name(f)).contains(','),
        forall|f: Field| (#[trigger] field_name(f)).len() > 0,
{
    reveal_strlit("name");
    reveal_strlit("kind");
    reveal_strlit("focused");
    reveal_strlit("workspace_count");
    reveal_strlit("window_count");
    assert("name"@.len() == 4 && "kind"@.len() == 4 && "focused"@.len() == 7);
    assert("workspace_count"@.len() == 15 && "window_count"@.len() == 12);
    assert("name"@[0] == 'n' && "kind"@[0] == 'k');
}

proof fn lemma_fields_of(parts: Seq<Seq<char>>, before: Seq<Field>)
    requires
        before.no_duplicates(),
    ensures
        match fields_of(parts, before) {
            Ok(fields) => fields.no_duplicates() && field_names(fields) == field_names(before)
                + parts,
            Err(_) => true,
        },
    decreases parts.len(),
{
    if parts.len() == 0 {
        assert(field_names(before) + parts =~= field_names(before));
    } else {
        match field_of(parts[0]) {
            None => {},
            Some(f) => if !before.contains(f) {
                let next = before.push(f);
                assert(next.no_duplicates());
                lemma_fields_of(parts.drop_first(), next);
                assert(field_name(f) == parts[0]);
                assert(field_names(next) =~= field_names(before).push(parts[0]));
                assert(field_names(next) + parts.drop_first() =~= field_names(before) + parts);
            },
        }
    }
}

proof fn lemma_fields_are_read(fields: Seq<Field>, before: Seq<Field>)
    requires
        (before + fields).no_duplicates(),
    ensures
        fields_of(field_names(fields), before) == Ok::<Seq<Field>, CliErrorView>(before + fields),
    decreases fields.len(),
{
    lemma_field_names();
    if fields.len() == 0 {
        assert(before + fields =~= before);
    } else {
        let f = fields[0];
        let rest = fields.drop_first();
        assert(field_names(fields)[0] == field_name(f));
        assert(field_names(fields).drop_first() =~= field_names(rest));
        if before.contains(f) {
            let i = choose|i: int| 0 <= i < before.len() && before[i] == f;
            assert((before + fields)[i] == (before + fields)[before.len() as int]);
        }
        assert(before.push(f) + rest =~= before + fields);
        lemma_fields_are_read(rest, before.push(f));
    }
}

/// A listing asks for the activities, the workspaces and the windows, in this
/// order, and then prints. Columns that there are not are refused before
/// anything is asked for, and an activity that there is not before anything is
/// asked for but the activities.
pub proof fn law_three_requests_in_order(
    opts: ListOpts,
    activities: Vec<Activity>,
    workspaces: Vec<Workspace>,
    windows: Vec<Window>,
)
    ensures
        asked_fields(opts) matches Err(e) ==> beginning(opts) == failed(typed(e)),
        asked_fields(opts) is Ok ==> {
            &&& beginning(opts) == sending(
                RequestView::Activities,
                AfterReply::ListActivities { opts },
            )
            &&& with_activities(opts, Ok(Response::Activities(activities))) == (match opts.activity {
                Some(name) if named(activities@, name@) is None => failed(
                    typed(CliErrorView::ActivityNotFound(name@)),
                ),
                _ => sending(
                    RequestView::Workspaces,
                    AfterReply::ListWorkspaces { opts, activities },
                ),
            })
            &&& with_workspaces(opts, activities, Ok(Response::Workspaces(workspaces))) == sending(
                RequestView::Windows,
                AfterReply::ListWindows { opts, activities, workspaces },
            )
            &&& with_windows(
                opts,
                activities,
                workspaces,
                Ok(Response::Windows(windows)),
            ).step is Print
        },
{
}

/// What is accepted as a list of columns is the names of some columns, none of
/// them twice and at least one, with commas in between.
pub proof fn law_accepted_formats(spec: Seq<char>)
    ensures
        match format_fields(spec) {
            Ok(fields) => fields.len() > 0 && fields.no_duplicates() && field_names(fields)
                == split(spec, ','),
            Err(_) => true,
        },
{
    lemma_fields_of(split(spec, ','), Seq::empty());
    match format_fields(spec) {
        Ok(fields) => {
            assert(field_names(Seq::empty()) + split(spec, ',') =~= split(spec, ','));
            assert(split(spec, ',').len() > 0);
            assert(field_names(fields).len() == fields.len());
        },
        Err(_) => {},
    }
}

/// Every list of columns without repetition can be asked for, and is understood
/// as it was meant.
pub proof fn law_formats_are_understood(fields: Seq<Field>)
    requires
        fields.len() > 0,
        fields.no_duplicates(),
    ensures
        format_fields(joined(field_names(fields), ","@)) == Ok::<Seq<Field>, CliErrorView>(fields),
{
    lemma_field_names();
    reveal_strlit(",");
    let parts = field_names(fields);
    assert(","@ =~= seq![',']);
    assert forall|i: int| 0 <= i < parts.len() implies !(#[trigger] parts[i]).contains(',') by {
        assert(parts[i] == field_name(fields[i]));
    }
    lemma_split_joined(parts, ","@, ',');
    assert(Seq::<Field>::empty() + fields =~= fields);
    lemma_fields_are_read(fields, Seq::empty());
    assert(parts[0] == field_name(fields[0]));
    if parts.len() > 1 {
        lemma_joined_front(parts, ","@);
    }
    assert(joined(parts, ","@).len() > 0);
}

/// Whether a text is the name of a column.
pub open spec fn is_column(name: Seq<char>) -> bool {
    ||| name == "name"@
    ||| name == "kind"@
    ||| name == "focused"@
    ||| name == "workspace_count"@
    ||| name == "window_count"@
}

/// Columns are accepted if and only if each of them is one and none comes twice;
/// anything else is a mistake on the command line, and the compositor is asked for
/// nothing.
pub proof fn law_columns_are_accepted(opts: ListOpts)
    ensures
        match opts.format {
            Some(spec) if !(split(spec@, ',').no_duplicates() && forall|i: int|
                0 <= i < split(spec@, ',').len() ==> is_column(#[trigger] split(spec@, ',')[i])) => {
                beginning(opts).step matches StepView::Finish { outcome: Err(f) } && f.code() == 64
            },
            _ => beginning(opts).step == (StepView::Send {
                request: RequestView::Activities,
                then: AfterReply::ListActivities { opts },
            }),
        },
{
    match opts.format {
        None => {},
        Some(spec) => {
            let parts = split(spec@, ',');
            lemma_field_names();
            law_accepted_formats(spec@);
            if parts.no_duplicates() && forall|i: int|
                0 <= i < parts.len() ==> is_column(#[trigger] parts[i]) {
                let fields = parts.map_values(|name: Seq<char>| field_of(name)->0);
                assert forall|i: int| 0 <= i < parts.len() implies #[trigger] field_names(fields)[i]
                    == parts[i] by {
                    assert(is_column(parts[i]));
                }
                assert(field_names(fields) =~= parts);
                assert forall|i: int, j: int| 0 <= i < j < fields.len() implies fields[i]
                    != fields[j] by {
                    assert(field_names(fields)[i] != field_names(fields)[j]);
                }
                assert(fields.no_duplicates());
                assert(Seq::<Field>::empty() + fields =~= fields);
                lemma_fields_are_read(fields, Seq::empty());
                assert(parts.len() > 0);
                if spec@.len() == 0 {
                    assert(parts[0] == spec@);
                    assert(is_column(parts[0]));
                }
            } else {
                match format_fields(spec@) {
                    Ok(fields) => {
                        assert forall|i: int| 0 <= i < parts.len() implies is_column(
                            #[trigger] parts[i],
                        ) by {
                            assert(parts[i] == field_name(fields[i]));
                        }
                        assert forall|i: int, j: int| 0 <= i < j < parts.len() implies parts[i]
                            != parts[j] by {
                            assert(parts[i] == field_name(fields[i]));
                            assert(parts[j] == field_name(fields[j]));
                            assert(fields[i] != fields[j]);
                        }
                        assert(parts.no_duplicates());
                    },
                    Err(e) => {
                        lemma_refused(split(spec@, ','), Seq::empty());
                    },
                }
            }
        },
    }
}

proof fn lemma_refused(parts: Seq<Seq<char>>, before: Seq<Field>)
    ensures
        fields_of(parts, before) matches Err(e) ==> e is Usage,
    decreases parts.len(),
{
    if parts.len() > 0 {
        match field_of(parts[0]) {
            None => {},
            Some(f) => lemma_refused(parts.drop_first(), before.push(f)),
        }
    }
}

/// What is said of a list of columns that is not accepted: its first part that is no
/// column, or that is one for the second time, is named, and an empty list is told
/// as such.
pub proof fn law_refused_column_is_named(spec: Seq<char>, at: int)
    requires
        0 <= at < split(spec, ',').len(),
        forall|i: int|
            0 <= i < at ==> is_column(#[trigger] split(spec, ',')[i]) && !split(spec, ',').take(
                i,
            ).contains(split(spec, ',')[i]),
        !is_column(split(spec, ',')[at]) || split(spec, ',').take(at).contains(
            split(spec, ',')[at],
        ),
    ensures
        ({
            let part = split(spec, ',')[at];
            let columns = "name|kind|focused|workspace_count|window_count"@;
            format_fields(spec) == Err::<Seq<Field>, CliErrorView>(
                CliErrorView::Usage(
                    if spec.len() == 0 {
                        "empty --format spec; expected comma-separated subset of "@ + columns
                    } else if is_column(part) {
                        "duplicate field: "@ + part
                    } else {
                        "unknown field: "@ + part + "; expected one of "@ + columns
                    },
                ),
            )
        }),
{
    let parts = split(spec, ',');
    lemma_field_names();
    if spec.len() > 0 {
        assert(parts.skip(0) =~= parts);
        assert(field_names(Seq::empty()) =~= parts.take(0));
        lemma_refused_at(parts, Seq::empty(), 0, at);
    }
}

proof fn lemma_refused_at(parts: Seq<Seq<char>>, before: Seq<Field>, from: int, at: int)
    requires
        0 <= from <= at < parts.len(),
        forall|i: int|
            0 <= i < at ==> is_column(#[trigger] parts[i]) && !parts.take(i).contains(parts[i]),
        !is_column(parts[at]) || parts.take(at).contains(parts[at]),
        field_names(before) == parts.take(from),
    ensures
        fields_of(parts.skip(from), before) == Err::<Seq<Field>, CliErrorView>(
            CliErrorView::Usage(
                if is_column(parts[at]) {
                    duplicate_field(parts[at])
                } else {
                    unknown_field(parts[at])
                },
            ),
        ),
    decreases at - from,
{
    lemma_field_names();
    let rest = parts.skip(from);
    let part = parts[from];
    assert(rest[0] == part);
    assert(rest.drop_first() =~= parts.skip(from + 1));
    assert(is_column(part) <==> field_of(part) is Some);
    if is_column(part) {
        let f = field_of(part)->0;
        assert(field_name(f) == part);
        if before.contains(f) {
            let i = choose|i: int| 0 <= i < before.len() && before[i] == f;
            assert(field_names(before)[i] == part);
            assert(parts.take(from).contains(part));
        }
        if parts.take(from).contains(part) {
            let i = choose|i: int| 0 <= i < parts.take(from).len() && parts.take(from)[i] == part;
            assert(field_names(before)[i] == field_name(before[i]));
            assert(before[i] == f);
        }
        if from < at {
            assert(field_names(before.push(f)) =~= field_names(before).push(part));
            assert(parts.take(from + 1) =~= parts.take(from).push(part));
            lemma_refused_at(parts, before.push(f), from + 1, at);
        }
    }
}

/// Narrowing to a name lists the activities of that name only, and those as they
/// would be listed without it.
pub proof fn law_narrowing_selects_rows(
    opts: ListOpts,
    activities: Seq<Activity>,
    workspaces: Seq<Workspace>,
    windows: Seq<Window>,
    i: int,
)
    requires
        0 <= i < listed_rows(opts, activities, workspaces, windows).len(),
    ensures
        match opts.activity {
            Some(name) => listed_rows(opts, activities, workspaces, windows)[i].name == name@,
            None => true,
        },
        activity_rows(ordered(activities, opts.order), workspaces, windows).contains(
            listed_rows(opts, activities, workspaces, windows)[i],
        ),
{
    let all = ordered(activities, opts.order);
    let kept = narrowed(all, opts.activity);
    let rows = activity_rows(all, workspaces, windows);
    match opts.activity {
        Some(name) => {
            all.lemma_filter_contains_rev(has_name(name@), kept[i]);
        },
        None => {},
    }
    assert(kept.contains(kept[i]));
    match opts.activity {
        Some(name) => {
            assert(all.contains(kept[i]));
        },
        None => {},
    }
    let j = choose|j: int| 0 <= j < all.len() && all[j] == kept[i];
    assert(rows[j] == activity_row(kept[i], workspaces, windows));
}

/// A window that is on no workspace changes nothing in the list.
pub proof fn law_unplaced_windows_do_not_count(
    activities: Seq<Activity>,
    workspaces: Seq<Workspace>,
    windows: Seq<Window>,
    w: Window,
)
    requires
        w.workspace_id is None,
    ensures
        activity_rows(activities, workspaces, windows.push(w)) == activity_rows(
            activities,
            workspaces,
            windows,
        ),
{
    assert forall|i: int| 0 <= i < activities.len() implies activity_row(
        #[trigger] activities[i],
        workspaces,
        windows.push(w),
    ) == activity_row(activities[i], workspaces, windows) by {
        lemma_unplaced(workspaces_of(workspaces, activities[i].id), windows, w);
    }
    assert(activity_rows(activities, workspaces, windows.push(w)) =~= activity_rows(
        activities,
        workspaces,
        windows,
    ));
}

proof fn lemma_unplaced(there: Seq<Workspace>, windows: Seq<Window>, w: Window)
    requires
        w.workspace_id is None,
    ensures
        windows_on_all(windows.push(w), there) == windows_on_all(windows, there),
    decreases there.len(),
{
    if there.len() > 0 {
        lemma_unplaced(there.drop_last(), windows, w);
        reveal(Seq::filter);
        assert(windows.push(w).drop_last() =~= windows);
    }
}

/// Where there is no activity to list, nothing is printed.
pub proof fn law_empty_list_prints_nothing(fields: Seq<Field>)
    ensures
        table(Seq::empty()).len() == 0,
        field_lines(Seq::empty(), fields).len() == 0,
        json_envelope(Seq::empty()).activities.len() == 0,
{
}

} // verus!
