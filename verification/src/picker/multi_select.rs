//! The menu with several choices, which `rofi` shows.
//!
//! Two rows come first that stand for no activity: one that chooses all of
//! them, and one that asks for a single choice instead. The other rows say of
//! each activity whether it is chosen already.

use crate::error::{CliError, IoFailure};
use crate::ipc_helpers::result_of;
use crate::picker::single_select::{availability, report_missing};
use crate::search::lemma_filter_places;
use crate::text::{chars_of, copied, debug_form, debug_text, from_utf8_lossy, has_text,
    is_white_space, lemma_blank, lemma_trimmed_has_no_return, lines_of, lossy_text, split_lines, str_eq, string_of,
    string_slices, terminated, text_of, texts, trim, trim_end, trimmed,
    trimmed_end};
use vstd::prelude::*;
use vstd::string::*;

verus! {

/// The complaint about a missing `rofi`.
pub const ROFI_MISSING_MESSAGE: &'static str =
    "rofi: not on $PATH (required for multi-select picker)";

/// Whether `rofi` can be run, after a search for it.
pub fn ensure_available(found: Result<(), IoFailure>) -> (r: Result<(), CliError>)
    ensures
        result_of(r) == availability(found, ROFI_MISSING_MESSAGE@),
{
    report_missing(found, ROFI_MISSING_MESSAGE)
}

// ---- Special rows ----------------------------------------------------------

/// The row that chooses all activities.
pub const UNICODE_SELECT_ALL: &'static str = "« Select all »";

/// The row that asks for a single choice.
pub const UNICODE_ONLY_ONE: &'static str = "« Only one… »";

/// The row that chooses all activities, where a name reads like a special row.
pub const FALLBACK_SELECT_ALL: &'static str = "__niri_activities_select_all__";

/// The row that asks for a single choice, where a name reads like a special row.
pub const FALLBACK_ONLY_ONE: &'static str = "__niri_activities_only_one__";

/// The two special rows. They are always of one form.
#[derive(Debug)]
pub struct SentinelNames {
    pub select_all: String,
    pub only_one: String,
}

/// Whether a name reads like a special row.
pub open spec fn collides(names: Seq<Seq<char>>) -> bool {
    names.contains(UNICODE_SELECT_ALL@) || names.contains(UNICODE_ONLY_ONE@)
}

/// The row that chooses all activities, among the given names.
pub open spec fn select_all_row(names: Seq<Seq<char>>) -> Seq<char> {
    if collides(names) {
        FALLBACK_SELECT_ALL@
    } else {
        UNICODE_SELECT_ALL@
    }
}

/// The row that asks for a single choice, among the given names.
pub open spec fn only_one_row(names: Seq<Seq<char>>) -> Seq<char> {
    if collides(names) {
        FALLBACK_ONLY_ONE@
    } else {
        UNICODE_ONLY_ONE@
    }
}

/// The special rows among the given names.
pub fn sentinel_names(activity_names: &Vec<String>) -> (r: SentinelNames)
    ensures
        r.select_all@ == select_all_row(texts(activity_names@)),
        r.only_one@ == only_one_row(texts(activity_names@)),
{
    if has_text(activity_names, UNICODE_SELECT_ALL) || has_text(activity_names, UNICODE_ONLY_ONE) {
        SentinelNames {
            select_all: FALLBACK_SELECT_ALL.to_owned(),
            only_one: FALLBACK_ONLY_ONE.to_owned(),
        }
    } else {
        SentinelNames {
            select_all: UNICODE_SELECT_ALL.to_owned(),
            only_one: UNICODE_ONLY_ONE.to_owned(),
        }
    }
}

// ---- What the program gets -------------------------------------------------

/// The row of an activity.
pub open spec fn marked_row(name: Seq<char>, current: Seq<Seq<char>>) -> Seq<char> {
    (if current.contains(name) {
        "[x] "@
    } else {
        "[ ] "@
    }) + name
}

/// The rows of the menu.
pub open spec fn menu_rows(
    names: Seq<Seq<char>>,
    current: Seq<Seq<char>>,
    select_all: Seq<char>,
    only_one: Seq<char>,
) -> Seq<Seq<char>> {
    seq![select_all, only_one] + names.map_values(|name: Seq<char>| marked_row(name, current))
}

/// The rows of the menu, one per line: the special ones, then one for each
/// activity, marked where it is one of `current_membership`.
pub fn build_input_payload(
    activity_names: &Vec<String>,
    current_membership: &Vec<String>,
    sentinels: &SentinelNames,
) -> (r: String)
    ensures
        r@ == terminated(
            menu_rows(
                texts(activity_names@),
                texts(current_membership@),
                sentinels.select_all@,
                sentinels.only_one@,
            ),
            "\n"@,
        ),
{
    let ghost listed = texts(activity_names@);
    let ghost current = texts(current_membership@);
    let ghost all = menu_rows(listed, current, sentinels.select_all@, sentinels.only_one@);
    let mut out = String::new();
    out.append(sentinels.select_all.as_str());
    out.append("\n");
    out.append(sentinels.only_one.as_str());
    out.append("\n");
    let mut i: usize = 0;
    proof {
        assert(all.take(0).len() == 0);
        assert(all.take(1).drop_last() =~= all.take(0));
        assert(all.take(2).drop_last() =~= all.take(1));
        assert(all.take(1).last() == sentinels.select_all@);
        assert(all.take(2).last() == sentinels.only_one@);
        assert(terminated(all.take(0), "\n"@) =~= Seq::<char>::empty());
        assert(terminated(all.take(1), "\n"@) =~= Seq::<char>::empty() + sentinels.select_all@
            + "\n"@);
        assert(out@ == terminated(all.take(2), "\n"@));
    }
    while i < activity_names.len()
        invariant
            i <= activity_names@.len(),
            listed == texts(activity_names@),
            current == texts(current_membership@),
            all == menu_rows(listed, current, sentinels.select_all@, sentinels.only_one@),
            out@ == terminated(all.take(i + 2), "\n"@),
        decreases activity_names@.len() - i,
    {
        let name = activity_names[i].as_str();
        let mut row = (if has_text(current_membership, name) {
            "[x] "
        } else {
            "[ ] "
        }).to_owned();
        row.append(name);
        out.append(row.as_str());
        out.append("\n");
        proof {
            let next = all.take(i + 3);
            assert(next.drop_last() =~= all.take(i + 2));
            assert(next.last() == all[i + 2]);
            assert(listed[i as int] == name@);
            assert(all[i + 2] == marked_row(name@, current));
        }
        i = i + 1;
    }
    proof {
        assert(all.take(i + 2) =~= all);
    }
    out
}

// ---- What the program answers ----------------------------------------------

/// Whether `s` begins with a mark.
pub open spec fn has_mark(s: Seq<char>) -> bool {
    s.len() >= 4 && (s.take(4) == "[x] "@ || s.take(4) == "[ ] "@)
}

/// A line of the answer without white space behind it and without a mark before
/// it.
pub open spec fn bare(line: Seq<char>) -> Seq<char> {
    let s = trimmed_end(line);
    if has_mark(s) {
        s.skip(4)
    } else {
        s
    }
}

fn bare_text(line: &str) -> (r: String)
    ensures
        r@ == bare(line@),
{
    let s = trim_end(line);
    let chars = chars_of(s.as_str());
    if chars.len() >= 4 {
        let head = string_of(&chars, 0, 4);
        proof {
            assert(chars@.subrange(0, 4) =~= s@.take(4));
        }
        if str_eq(head.as_str(), "[x] ") || str_eq(head.as_str(), "[ ] ") {
            proof {
                assert(chars@.subrange(4, chars@.len() as int) =~= s@.skip(4));
            }
            return string_of(&chars, 4, chars.len());
        }
    }
    s
}

/// Whether a line is not blank at its end and therefore counts.
pub open spec fn counts() -> spec_fn(Seq<char>) -> bool {
    |line: Seq<char>| trimmed_end(line).len() > 0
}

/// A line, without its mark.
pub open spec fn unmark() -> spec_fn(Seq<char>) -> Seq<char> {
    |line: Seq<char>| bare(line)
}

/// The rows that an answer chooses.
pub open spec fn chosen_rows(lines: Seq<Seq<char>>) -> Seq<Seq<char>> {
    lines.filter(counts()).map_values(unmark())
}

/// What an answer chooses.
#[derive(Debug, PartialEq, Eq)]
pub enum ResolvedSelection {
    /// A single choice is asked for.
    ChainSingle,
    /// All activities.
    SelectAll,
    /// These rows.
    Literal(Vec<String>),
}

/// What a [`ResolvedSelection`] holds.
pub enum Selection {
    ChainSingle,
    SelectAll,
    Literal(Seq<Seq<char>>),
}

impl View for ResolvedSelection {
    type V = Selection;

    open spec fn view(&self) -> Selection {
        match self {
            ResolvedSelection::ChainSingle => Selection::ChainSingle,
            ResolvedSelection::SelectAll => Selection::SelectAll,
            ResolvedSelection::Literal(rows) => Selection::Literal(texts(rows@)),
        }
    }
}

/// What an answer chooses: asking for a single choice goes before everything
/// else, and choosing all before choosing some.
pub open spec fn selection(
    lines: Seq<Seq<char>>,
    select_all: Seq<char>,
    only_one: Seq<char>,
) -> Selection {
    let rows = chosen_rows(lines);
    if rows.contains(only_one) {
        Selection::ChainSingle
    } else if rows.contains(select_all) {
        Selection::SelectAll
    } else {
        Selection::Literal(rows)
    }
}

/// Reads an answer. Rows count with or without their marks, and blank lines do
/// not count.
pub fn parse_selection(returned_lines: &[&str], sentinels: &SentinelNames) -> (r: ResolvedSelection)
    ensures
        r@ == selection(
            crate::text::slices(returned_lines@),
            sentinels.select_all@,
            sentinels.only_one@,
        ),
{
    let ghost all = crate::text::slices(returned_lines@);
    let ghost keep = counts();
    let ghost cut = unmark();
    let mut chain_single = false;
    let mut select_all = false;
    let mut literal: Vec<String> = Vec::new();
    let mut i: usize = 0;
    proof {
        reveal(Seq::filter);
        assert(texts(literal@) =~= all.take(0).filter(keep).map_values(cut));
    }
    while i < returned_lines.len()
        invariant
            i <= returned_lines@.len(),
            all == crate::text::slices(returned_lines@),
            keep == counts(),
            cut == unmark(),
            chain_single == chosen_rows(all.take(i as int)).contains(sentinels.only_one@),
            !chain_single ==> select_all == chosen_rows(all.take(i as int)).contains(
                sentinels.select_all@,
            ),
            !chain_single && !select_all ==> texts(literal@) == chosen_rows(all.take(i as int)),
        decreases returned_lines@.len() - i,
    {
        let line = returned_lines[i];
        let ghost before = literal@;
        let ghost seen = chosen_rows(all.take(i as int));
        let ghost next = chosen_rows(all.take(i + 1));
        proof {
            let front = all.take(i + 1);
            assert(front.drop_last() =~= all.take(i as int));
            assert(front.last() == line@);
            reveal(Seq::filter);
            if keep(line@) {
                assert(next =~= seen.push(bare(line@)));
                assert(next[seen.len() as int] == bare(line@));
                assert forall|x: Seq<char>| #[trigger] next.contains(x) <==> seen.contains(x) || x
                    == bare(line@) by {
                    if seen.contains(x) {
                        let k = choose|k: int| 0 <= k < seen.len() && seen[k] == x;
                        assert(next[k] == x);
                    }
                    if next.contains(x) {
                        let k = choose|k: int| 0 <= k < next.len() && next[k] == x;
                        if k < seen.len() {
                            assert(seen[k] == x);
                        }
                    }
                }
            } else {
                assert(next =~= seen);
            }
        }
        let trimmed_line = trim_end(line);
        if !trimmed_line.as_str().is_empty() {
            let row = bare_text(line);
            if str_eq(row.as_str(), sentinels.only_one.as_str()) {
                chain_single = true;
            } else if str_eq(row.as_str(), sentinels.select_all.as_str()) {
                select_all = true;
            } else {
                literal.push(row);
                proof {
                    assert(texts(literal@) =~= texts(before).push(row@));
                }
            }
        }
        i = i + 1;
    }
    proof {
        assert(all.take(i as int) =~= all);
    }
    if chain_single {
        ResolvedSelection::ChainSingle
    } else if select_all {
        ResolvedSelection::SelectAll
    } else {
        ResolvedSelection::Literal(literal)
    }
}

/// What came of a menu with several choices.
#[derive(Debug, PartialEq, Eq)]
pub enum MultiPickerOutcome {
    /// The activities that the user chose. There is always one at least, where
    /// any were offered.
    Selected(Vec<String>),
    /// The user asks for a single choice.
    ChainSingle,
    /// The user left the menu.
    Cancelled,
}

impl MultiPickerOutcome {
    /// A choice of activities.
    pub fn selected(names: Vec<String>) -> (r: MultiPickerOutcome)
        ensures
            r == MultiPickerOutcome::Selected(names),
    {
        MultiPickerOutcome::Selected(names)
    }
}

/// What a [`MultiPickerOutcome`] holds.
pub enum MultiChoice {
    Selected(Seq<Seq<char>>),
    ChainSingle,
    Cancelled,
}

impl View for MultiPickerOutcome {
    type V = MultiChoice;

    open spec fn view(&self) -> MultiChoice {
        match self {
            MultiPickerOutcome::Selected(names) => MultiChoice::Selected(texts(names@)),
            MultiPickerOutcome::ChainSingle => MultiChoice::ChainSingle,
            MultiPickerOutcome::Cancelled => MultiChoice::Cancelled,
        }
    }
}

/// What an answer means: choosing nothing is leaving the menu.
pub open spec fn resolved(
    lines: Seq<Seq<char>>,
    names: Seq<Seq<char>>,
    select_all: Seq<char>,
    only_one: Seq<char>,
) -> MultiChoice {
    match selection(lines, select_all, only_one) {
        Selection::ChainSingle => MultiChoice::ChainSingle,
        Selection::SelectAll => MultiChoice::Selected(names),
        Selection::Literal(rows) => if rows.len() == 0 {
            MultiChoice::Cancelled
        } else {
            MultiChoice::Selected(rows)
        },
    }
}

/// What an answer means.
pub fn resolve_outcome(
    returned_lines: &[&str],
    activity_names: &Vec<String>,
    sentinels: &SentinelNames,
) -> (r: MultiPickerOutcome)
    ensures
        r@ == resolved(
            crate::text::slices(returned_lines@),
            texts(activity_names@),
            sentinels.select_all@,
            sentinels.only_one@,
        ),
{
    match parse_selection(returned_lines, sentinels) {
        ResolvedSelection::ChainSingle => MultiPickerOutcome::ChainSingle,
        ResolvedSelection::SelectAll => MultiPickerOutcome::selected(copied(activity_names)),
        ResolvedSelection::Literal(rows) => {
            proof {
                assert(texts(rows@).len() == rows@.len());
            }
            if rows.len() == 0 {
                MultiPickerOutcome::Cancelled
            } else {
                MultiPickerOutcome::selected(rows)
            }
        },
    }
}

/// An answer: what it means, and a line to show on stderr where the program
/// behaved oddly.
#[derive(Debug, PartialEq, Eq)]
pub struct MultiClassified {
    pub outcome: MultiPickerOutcome,
    pub note: Option<String>,
}

/// Whether all lines are blank.
pub open spec fn all_blank(lines: Seq<Seq<char>>) -> bool {
    forall|i: int| 0 <= i < lines.len() ==> trimmed(#[trigger] lines[i]).len() == 0
}

/// What an answer means: nothing but leaving, unless the program reports
/// success and says something.
pub open spec fn answered(
    success: bool,
    text: Seq<char>,
    names: Seq<Seq<char>>,
    select_all: Seq<char>,
    only_one: Seq<char>,
) -> MultiChoice {
    let lines = split_lines(text);
    if success && !all_blank(lines) {
        resolved(lines, names, select_all, only_one)
    } else {
        MultiChoice::Cancelled
    }
}

/// Shown where the program reports success without a choice.
pub const EMPTY_SUCCESS: &'static str =
    "niri-activities: rofi exited 0 with empty stdout (treating as cancellation)";

/// The line to show where the program behaved oddly.
pub open spec fn odd_answer(success: bool, text: Seq<char>) -> Option<Seq<char>> {
    let blank = all_blank(split_lines(text));
    if success && blank {
        Some(EMPTY_SUCCESS@)
    } else if !success && !blank {
        Some(
            "niri-activities: rofi exited non-zero with stdout "@ + debug_form(text)
                + " (treating as cancellation)"@,
        )
    } else {
        None
    }
}

fn are_all_blank(lines: &Vec<String>) -> (r: bool)
    ensures
        r == all_blank(texts(lines@)),
{
    let mut i: usize = 0;
    while i < lines.len()
        invariant
            i <= lines@.len(),
            forall|j: int| 0 <= j < i ==> trimmed(#[trigger] texts(lines@)[j]).len() == 0,
        decreases lines@.len() - i,
    {
        proof {
            assert(texts(lines@)[i as int] == lines@[i as int]@);
        }
        if !trim(lines[i].as_str()).as_str().is_empty() {
            return false;
        }
        i = i + 1;
    }
    true
}

/// What an answer means.
pub fn classify_text(
    success: bool,
    text: &str,
    activity_names: &Vec<String>,
    sentinels: &SentinelNames,
) -> (r: MultiClassified)
    ensures
        r.outcome@ == answered(
            success,
            text@,
            texts(activity_names@),
            sentinels.select_all@,
            sentinels.only_one@,
        ),
        text_of(r.note) == odd_answer(success, text@),
{
    let lines = lines_of(text);
    let blank = are_all_blank(&lines);
    if success && !blank {
        let refs = string_slices(&lines);
        MultiClassified {
            outcome: resolve_outcome(refs.as_slice(), activity_names, sentinels),
            note: None,
        }
    } else if success {
        MultiClassified {
            outcome: MultiPickerOutcome::Cancelled,
            note: Some(EMPTY_SUCCESS.to_owned()),
        }
    } else if blank {
        MultiClassified { outcome: MultiPickerOutcome::Cancelled, note: None }
    } else {
        let mut note = "niri-activities: rofi exited non-zero with stdout ".to_owned();
        note.append(debug_text(text).as_str());
        note.append(" (treating as cancellation)");
        MultiClassified { outcome: MultiPickerOutcome::Cancelled, note: Some(note) }
    }
}

/// What an answer means, from the bytes of it.
pub fn classify_output(
    success: bool,
    stdout: &[u8],
    activity_names: &Vec<String>,
    sentinels: &SentinelNames,
) -> (r: MultiClassified)
    ensures
        r.outcome@ == answered(
            success,
            lossy_text(stdout@),
            texts(activity_names@),
            sentinels.select_all@,
            sentinels.only_one@,
        ),
        text_of(r.note) == odd_answer(success, lossy_text(stdout@)),
        vstd::utf8::valid_utf8(stdout@) ==> r.outcome@ == answered(
            success,
            vstd::utf8::decode_utf8(stdout@),
            texts(activity_names@),
            sentinels.select_all@,
            sentinels.only_one@,
        ),
{
    let text = from_utf8_lossy(stdout);
    classify_text(success, text.as_str(), activity_names, sentinels)
}

// ---- Laws ------------------------------------------------------------------

/// The special rows are different from every name, unless one name reads like a
/// special row and another like the other form of one.
pub proof fn law_special_rows_are_distinct(names: Seq<Seq<char>>)
    requires
        !(collides(names) && (names.contains(FALLBACK_SELECT_ALL@) || names.contains(
            FALLBACK_ONLY_ONE@,
        ))),
    ensures
        !names.contains(select_all_row(names)),
        !names.contains(only_one_row(names)),
        select_all_row(names) != only_one_row(names),
{
    reveal_strlit("« Select all »");
    reveal_strlit("« Only one… »");
    reveal_strlit("__niri_activities_select_all__");
    reveal_strlit("__niri_activities_only_one__");
    assert(UNICODE_SELECT_ALL@.len() == 14);
    assert(UNICODE_ONLY_ONE@.len() == 13);
    assert(FALLBACK_SELECT_ALL@.len() == 30);
    assert(FALLBACK_ONLY_ONE@.len() == 28);
}

/// The row of an activity is read back as its name, whether marked or not, where
/// the name is not empty and has no white space behind it.
pub proof fn law_row_is_read_back(name: Seq<char>, current: Seq<Seq<char>>)
    requires
        name.len() > 0,
        trimmed_end(name) == name,
    ensures
        bare(marked_row(name, current)) == name,
        trimmed_end(marked_row(name, current)).len() > 0,
{
    reveal_strlit("[x] ");
    reveal_strlit("[ ] ");
    let row = marked_row(name, current);
    lemma_trimmed_has_no_return(name);
    assert(row.last() == name.last());
    assert(trimmed_end(row) == row);
    assert(row.take(4) =~= (if current.contains(name) {
        "[x] "@
    } else {
        "[ ] "@
    }));
    assert(row.skip(4) =~= name);
}

/// Choosing rows of activities chooses those activities, in the order of the
/// answer, where their names are not empty, have no white space behind them and
/// do not read like a special row.
pub proof fn law_chosen_rows_are_understood(
    chosen: Seq<Seq<char>>,
    current: Seq<Seq<char>>,
    names: Seq<Seq<char>>,
    select_all: Seq<char>,
    only_one: Seq<char>,
)
    requires
        chosen.len() > 0,
        forall|i: int|
            0 <= i < chosen.len() ==> (#[trigger] chosen[i]).len() > 0 && trimmed_end(chosen[i])
                == chosen[i],
        !chosen.contains(select_all),
        !chosen.contains(only_one),
    ensures
        resolved(
            chosen.map_values(|name: Seq<char>| marked_row(name, current)),
            names,
            select_all,
            only_one,
        ) == MultiChoice::Selected(chosen),
{
    let lines = chosen.map_values(|name: Seq<char>| marked_row(name, current));
    lemma_all_count(chosen, current);
    assert(chosen_rows(lines) == chosen);
}

proof fn lemma_all_count(chosen: Seq<Seq<char>>, current: Seq<Seq<char>>)
    requires
        forall|i: int|
            0 <= i < chosen.len() ==> (#[trigger] chosen[i]).len() > 0 && trimmed_end(chosen[i])
                == chosen[i],
    ensures
        chosen_rows(chosen.map_values(|name: Seq<char>| marked_row(name, current))) == chosen,
    decreases chosen.len(),
{
    reveal(Seq::filter);
    let lines = chosen.map_values(|name: Seq<char>| marked_row(name, current));
    if chosen.len() == 0 {
        assert(chosen_rows(lines) =~= chosen);
    } else {
        let front = chosen.drop_last();
        assert forall|i: int| 0 <= i < front.len() implies (#[trigger] front[i]).len() > 0
            && trimmed_end(front[i]) == front[i] by {
            assert(front[i] == chosen[i]);
        }
        lemma_all_count(front, current);
        assert(lines.drop_last() =~= front.map_values(
            |name: Seq<char>| marked_row(name, current),
        ));
        let name = chosen[chosen.len() - 1];
        law_row_is_read_back(name, current);
        assert(lines.last() == marked_row(name, current));
        assert(counts()(lines.last()));
        assert(lines.filter(counts()) == lines.drop_last().filter(counts()).push(lines.last()));
        assert(chosen_rows(lines) =~= chosen_rows(lines.drop_last()).push(name));
        assert(front.push(name) =~= chosen);
    }
}

/// The row that asks for a single choice goes before everything else, and the
/// one that chooses all before choosing some.
pub proof fn law_special_rows_go_first(
    lines: Seq<Seq<char>>,
    names: Seq<Seq<char>>,
    select_all: Seq<char>,
    only_one: Seq<char>,
)
    ensures
        chosen_rows(lines).contains(only_one) ==> resolved(lines, names, select_all, only_one)
            == MultiChoice::ChainSingle,
        chosen_rows(lines).contains(select_all) && !chosen_rows(lines).contains(only_one)
            ==> resolved(lines, names, select_all, only_one) == MultiChoice::Selected(names),
        chosen_rows(lines).len() == 0 ==> resolved(lines, names, select_all, only_one)
            == MultiChoice::Cancelled,
{
}

/// A choice of activities is never empty, where any were offered.
pub proof fn law_choice_is_not_empty(
    success: bool,
    text: Seq<char>,
    names: Seq<Seq<char>>,
    select_all: Seq<char>,
    only_one: Seq<char>,
)
    requires
        names.len() > 0,
    ensures
        answered(success, text, names, select_all, only_one) matches MultiChoice::Selected(chosen)
            ==> chosen.len() > 0,
{
}

/// The menu offers the two special rows and then every activity, in the order of
/// the list; an activity is marked if and only if it is a current one.
pub proof fn law_menu_marks_the_current(
    names: Seq<Seq<char>>,
    current: Seq<Seq<char>>,
    select_all: Seq<char>,
    only_one: Seq<char>,
    i: int,
)
    requires
        0 <= i < names.len(),
    ensures
        menu_rows(names, current, select_all, only_one).len() == names.len() + 2,
        menu_rows(names, current, select_all, only_one)[0] == select_all,
        menu_rows(names, current, select_all, only_one)[1] == only_one,
        current.contains(names[i]) ==> menu_rows(names, current, select_all, only_one)[i + 2]
            == "[x] "@ + names[i],
        !current.contains(names[i]) ==> menu_rows(names, current, select_all, only_one)[i + 2]
            == "[ ] "@ + names[i],
{
}

/// Where the program does not report success, the user left the menu, whatever it
/// says.
pub proof fn law_failing_menu_is_left(
    text: Seq<char>,
    names: Seq<Seq<char>>,
    select_all: Seq<char>,
    only_one: Seq<char>,
)
    ensures
        answered(false, text, names, select_all, only_one) == MultiChoice::Cancelled,
{
}

/// A row that was chosen is a line of the answer, and a line that is not blank is a
/// row that was chosen: both without white space behind and without a mark before.
pub proof fn law_every_line_counts(lines: Seq<Seq<char>>, row: Seq<char>)
    ensures
        chosen_rows(lines).contains(row) <==> exists|i: int|
            0 <= i < lines.len() && trimmed_end(#[trigger] lines[i]).len() > 0 && bare(lines[i])
                == row,
{
    let places = lemma_filter_places(lines, counts());
    let kept = lines.filter(counts());
    let rows = chosen_rows(lines);
    if rows.contains(row) {
        let h = choose|h: int| 0 <= h < rows.len() && rows[h] == row;
        assert(rows[h] == unmark()(kept[h]));
        let i = places[h];
        assert(places.contains(i));
        assert(counts()(lines[i]));
    }
    if exists|i: int|
        0 <= i < lines.len() && trimmed_end(#[trigger] lines[i]).len() > 0 && bare(lines[i]) == row {
        let i = choose|i: int|
            0 <= i < lines.len() && trimmed_end(#[trigger] lines[i]).len() > 0 && bare(lines[i])
                == row;
        assert(counts()(lines[i]));
        assert(places.contains(i));
        let h = choose|h: int| 0 <= h < places.len() && places[h] == i;
        assert(kept[h] == lines[i]);
        assert(rows[h] == unmark()(kept[h]));
    }
}

/// The special rows are always of one form: the other form is taken if and only if
/// a name reads like one of them.
pub proof fn law_special_rows_are_of_one_form(names: Seq<Seq<char>>)
    ensures
        if names.contains("« Select all »"@) || names.contains("« Only one… »"@) {
            select_all_row(names) == "__niri_activities_select_all__"@ && only_one_row(names)
                == "__niri_activities_only_one__"@
        } else {
            select_all_row(names) == "« Select all »"@ && only_one_row(names)
                == "« Only one… »"@
        },
{
}

/// A line is shown if and only if the program behaved oddly: it reports success and
/// all it says is blank, or it says something and does not report success. Either
/// way the user left the menu.
pub proof fn law_odd_answers_are_told(
    success: bool,
    text: Seq<char>,
    names: Seq<Seq<char>>,
    select_all: Seq<char>,
    only_one: Seq<char>,
)
    ensures
        odd_answer(success, text) is Some <==> success == (forall|i: int, j: int|
            0 <= i < split_lines(text).len() && 0 <= j < split_lines(text)[i].len()
                ==> is_white_space(#[trigger] split_lines(text)[i][j])),
        odd_answer(success, text) is Some ==> answered(
            success,
            text,
            names,
            select_all,
            only_one,
        ) == MultiChoice::Cancelled,
{
    let lines = split_lines(text);
    assert forall|i: int| 0 <= i < lines.len() implies (trimmed(#[trigger] lines[i]).len() == 0
        <==> forall|j: int| 0 <= j < lines[i].len() ==> is_white_space(#[trigger] lines[i][j])) by {
        lemma_blank(lines[i]);
    }
    if all_blank(lines) {
        assert forall|i: int, j: int|
            0 <= i < lines.len() && 0 <= j < lines[i].len() implies is_white_space(
            #[trigger] lines[i][j],
        ) by {
            assert(trimmed(lines[i]).len() == 0);
        }
    } else {
        let i = choose|i: int| 0 <= i < lines.len() && !(trimmed(#[trigger] lines[i]).len() == 0);
        let j = choose|j: int| 0 <= j < lines[i].len() && !is_white_space(#[trigger] lines[i][j]);
    }
}

} // verus!
