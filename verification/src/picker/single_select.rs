//! The menu with one choice, which `fuzzel` shows.
//!
//! The program gets one row per line, and answers with the chosen row. Whatever
//! else it does is taken for the user leaving the menu.

use crate::error::{CliError, CliErrorView, IoFailure, IoFailureView, IoKind};
use crate::ipc_helpers::result_of;
use crate::picker::{NameOutcome, PickerOutcome};
use crate::text::{debug_form, debug_text, from_utf8_lossy, is_white_space, lemma_blank,
    lemma_first_line, lemma_lines_of_terminated, lemma_trimmed_ends, lemma_trimmed_has_no_return,
    lemma_trimmed_parts, lines_of, lossy_text, split_lines, terminated, text_of, texts, trim, trimmed,
    without_return};
use vstd::prelude::*;
use vstd::string::*;
use vstd::utf8::{decode_utf8, valid_utf8};

verus! {

/// The complaint about a missing `fuzzel`.
pub const PICKER_MISSING_MESSAGE: &'static str =
    "fuzzel: not on $PATH (required for single-select picker)";

// ---- Finding the program ---------------------------------------------------

/// What the file system says of a file.
#[derive(Debug, Clone, Copy, PartialEq, Eq, Structural)]
pub struct FileFacts {
    pub is_file: bool,
    /// The permission bits.
    pub mode: u32,
}

/// Whether a file can be executed by anyone.
pub open spec fn executable(facts: FileFacts) -> bool {
    facts.is_file && facts.mode & 0o111 != 0
}

/// Whether a file can be executed. One that does not exist cannot; any other
/// problem is reported.
pub fn is_executable_file(stat: Result<FileFacts, IoFailure>) -> (r: Result<bool, IoFailure>)
    ensures
        r == (match stat {
            Ok(facts) => Ok::<bool, IoFailure>(executable(facts)),
            Err(e) => if e.kind == IoKind::NotFound {
                Ok(false)
            } else {
                Err(e)
            },
        }),
{
    match stat {
        Ok(facts) => Ok(facts.is_file && facts.mode & 0o111 != 0),
        Err(e) => {
            if e.kind == IoKind::NotFound {
                Ok(false)
            } else {
                Err(e)
            }
        },
    }
}

/// A directory of the search path: `None` for an empty entry, which is passed
/// over, else what the file system says of the program in it.
pub type PathEntry = Option<Result<FileFacts, IoFailure>>;

/// What the search comes to: `Some(Ok(()))` where the program was found,
/// `Some(Err(e))` where a problem stopped the search.
pub open spec fn search(entries: Seq<PathEntry>) -> Option<Result<(), IoFailure>>
    decreases entries.len(),
{
    if entries.len() == 0 {
        None
    } else {
        match entries[0] {
            Some(Ok(facts)) if executable(facts) => Some(Ok(())),
            Some(Err(e)) if e.kind != IoKind::NotFound => Some(Err(e)),
            _ => search(entries.drop_first()),
        }
    }
}

/// What the search for a program comes to. Without a search path there is none
/// to be found.
pub open spec fn which(bin: Seq<char>, path: Option<Seq<PathEntry>>) -> Result<(), IoFailureView> {
    match path {
        None => Err(IoFailureView { kind: IoKind::NotFound, message: "$PATH is unset"@ }),
        Some(entries) => match search(entries) {
            Some(Ok(_)) => Ok(()),
            Some(Err(e)) => Err(e@),
            None => Err(
                IoFailureView { kind: IoKind::NotFound, message: bin + ": not found on $PATH"@ },
            ),
        },
    }
}

/// What an outcome of the search holds.
pub open spec fn which_view(r: Result<(), IoFailure>) -> Result<(), IoFailureView> {
    match r {
        Ok(_) => Ok(()),
        Err(e) => Err(e@),
    }
}

/// Searches for the program `bin`. The first directory that has it decides, and
/// so does the first one that cannot be looked into.
pub fn which_in_path(bin: &str, path: Option<Vec<PathEntry>>) -> (r: Result<(), IoFailure>)
    ensures
        which_view(r) == which(
            bin@,
            match path {
                Some(entries) => Some(entries@),
                None => None,
            },
        ),
{
    let mut entries = match path {
        None => {
            return Err(
                IoFailure { kind: IoKind::NotFound, message: "$PATH is unset".to_owned() },
            );
        },
        Some(entries) => entries,
    };
    let ghost all = entries@;
    while entries.len() > 0
        invariant
            search(entries@) == search(all),
            path is Some && path->0@ == all,
        decreases entries@.len(),
    {
        let ghost before = entries@;
        let entry = entries.remove(0);
        proof {
            assert(entries@ =~= before.drop_first());
        }
        match entry {
            None => {},
            Some(stat) => match is_executable_file(stat) {
                Ok(true) => {
                    return Ok(());
                },
                Ok(false) => {},
                Err(e) => {
                    return Err(e);
                },
            },
        }
    }
    Err(
        IoFailure {
            kind: IoKind::NotFound,
            message: bin.to_owned().concat(": not found on $PATH"),
        },
    )
}

/// What a search comes to as a typed failure: a program that is not there is
/// reported with `missing`, any other problem as it is.
pub open spec fn availability(found: Result<(), IoFailure>, missing: Seq<char>) -> Result<
    (),
    CliErrorView,
> {
    match found {
        Ok(_) => Ok(()),
        Err(e) => Err(
            CliErrorView::PickerUnavailable(
                if e.kind == IoKind::NotFound {
                    IoFailureView { kind: IoKind::NotFound, message: missing }
                } else {
                    e@
                },
            ),
        ),
    }
}

/// What a search comes to as a typed failure.
pub fn report_missing(found: Result<(), IoFailure>, missing: &str) -> (r: Result<(), CliError>)
    ensures
        result_of(r) == availability(found, missing@),
{
    match found {
        Ok(_) => Ok(()),
        Err(e) => {
            if e.kind == IoKind::NotFound {
                Err(
                    CliError::PickerUnavailable(
                        IoFailure { kind: IoKind::NotFound, message: missing.to_owned() },
                    ),
                )
            } else {
                Err(CliError::PickerUnavailable(e))
            }
        },
    }
}

/// Whether `fuzzel` can be run, after a search for it.
pub fn ensure_available(found: Result<(), IoFailure>) -> (r: Result<(), CliError>)
    ensures
        result_of(r) == availability(found, PICKER_MISSING_MESSAGE@),
{
    report_missing(found, PICKER_MISSING_MESSAGE)
}

// ---- What the program gets -------------------------------------------------

/// The rows, one per line.
pub fn items_to_payload(items: &Vec<String>) -> (r: String)
    ensures
        r@ == terminated(texts(items@), "\n"@),
{
    let mut s = String::new();
    let mut i: usize = 0;
    let ghost all = texts(items@);
    proof {
        assert(all.take(0).len() == 0);
    }
    while i < items.len()
        invariant
            i <= items@.len(),
            all == texts(items@),
            s@ == terminated(all.take(i as int), "\n"@),
        decreases items@.len() - i,
    {
        s.append(items[i].as_str());
        s.append("\n");
        proof {
            let next = all.take(i + 1);
            assert(next.drop_last() =~= all.take(i as int));
            assert(next.last() == items@[i as int]@);
        }
        i = i + 1;
    }
    proof {
        assert(all.take(i as int) =~= all);
    }
    s
}

// ---- What the program answers ----------------------------------------------

/// An answer: what it means, and a line to show on stderr where the program
/// behaved oddly.
#[derive(Debug, PartialEq, Eq)]
pub struct Classified {
    pub outcome: PickerOutcome,
    pub note: Option<String>,
}

/// The first line of an answer, without white space around it.
pub open spec fn first_line(text: Seq<char>) -> Seq<char> {
    let lines = split_lines(text);
    if lines.len() == 0 {
        Seq::empty()
    } else {
        trimmed(lines[0])
    }
}

fn first_line_of(text: &str) -> (r: String)
    ensures
        r@ == first_line(text@),
{
    let lines = lines_of(text);
    proof {
        assert(texts(lines@).len() == lines@.len());
    }
    if lines.len() == 0 {
        String::new()
    } else {
        proof {
            assert(texts(lines@)[0] == lines@[0]@);
        }
        trim(lines[0].as_str())
    }
}

/// The row that an answer chooses, if any.
pub open spec fn chosen_row(success: bool, text: Seq<char>) -> Option<Seq<char>> {
    if success && first_line(text).len() > 0 {
        Some(first_line(text))
    } else {
        None
    }
}

/// The row that an outcome holds.
pub open spec fn row_of(outcome: PickerOutcome) -> Option<Seq<char>> {
    match outcome {
        PickerOutcome::Selected(row) => Some(row@),
        PickerOutcome::Cancelled => None,
    }
}

/// Shown where the program reports success without a choice.
pub const EMPTY_SUCCESS: &'static str =
    "niri-activities: fuzzel exited 0 with empty stdout (treating as cancellation)";

/// The line to show where the program behaved oddly.
pub open spec fn odd_answer(success: bool, text: Seq<char>) -> Option<Seq<char>> {
    let line = first_line(text);
    if success && line.len() == 0 {
        Some(EMPTY_SUCCESS@)
    } else if !success && line.len() > 0 {
        Some(
            "niri-activities: fuzzel exited non-zero with stdout "@ + debug_form(line)
                + " (treating as cancellation)"@,
        )
    } else {
        None
    }
}

/// What an answer means: the first line, where the program reports success and
/// there is one; else the user left the menu.
pub fn classify_text(success: bool, text: &str) -> (r: Classified)
    ensures
        row_of(r.outcome) == chosen_row(success, text@),
        text_of(r.note) == odd_answer(success, text@),
{
    let line = first_line_of(text);
    let empty = line.as_str().is_empty();
    if success {
        if empty {
            Classified { outcome: PickerOutcome::Cancelled, note: Some(EMPTY_SUCCESS.to_owned()) }
        } else {
            Classified { outcome: PickerOutcome::Selected(line), note: None }
        }
    } else if empty {
        Classified { outcome: PickerOutcome::Cancelled, note: None }
    } else {
        let mut note = "niri-activities: fuzzel exited non-zero with stdout ".to_owned();
        note.append(debug_text(line.as_str()).as_str());
        note.append(" (treating as cancellation)");
        Classified { outcome: PickerOutcome::Cancelled, note: Some(note) }
    }
}

/// What an answer means, from the bytes of it.
pub fn classify_output(success: bool, stdout: &[u8]) -> (r: Classified)
    ensures
        row_of(r.outcome) == chosen_row(success, lossy_text(stdout@)),
        text_of(r.note) == odd_answer(success, lossy_text(stdout@)),
        valid_utf8(stdout@) ==> row_of(r.outcome) == chosen_row(success, decode_utf8(stdout@)),
{
    let text = from_utf8_lossy(stdout);
    classify_text(success, text.as_str())
}

/// What the answer to a prompt for a name means: unlike in a menu, confirming
/// without a word is not leaving.
pub open spec fn name_meant(success: bool, text: Seq<char>, outcome: NameOutcome) -> bool {
    match outcome {
        NameOutcome::Typed(name) => success && first_line(text).len() > 0 && name@ == first_line(
            text,
        ),
        NameOutcome::Unnamed => success && first_line(text).len() == 0,
        NameOutcome::Cancelled => !success,
    }
}

/// What the answer to a prompt for a name means.
pub fn classify_name_text(success: bool, text: &str) -> (r: NameOutcome)
    ensures
        name_meant(success, text@, r),
{
    let line = first_line_of(text);
    if !success {
        NameOutcome::Cancelled
    } else if line.as_str().is_empty() {
        NameOutcome::Unnamed
    } else {
        NameOutcome::Typed(line)
    }
}

/// What the answer to a prompt for a name means, from the bytes of it.
pub fn classify_name(success: bool, stdout: &[u8]) -> (r: NameOutcome)
    ensures
        name_meant(success, lossy_text(stdout@), r),
        valid_utf8(stdout@) ==> name_meant(success, decode_utf8(stdout@), r),
{
    let text = from_utf8_lossy(stdout);
    classify_name_text(success, text.as_str())
}

// ---- Laws ------------------------------------------------------------------

/// Every row is one line of what the program gets, where no row holds a line
/// feed or ends with a carriage return.
pub proof fn law_rows_are_lines(rows: Seq<Seq<char>>)
    requires
        forall|i: int|
            0 <= i < rows.len() ==> !(#[trigger] rows[i]).contains('\n') && without_return(rows[i])
                == rows[i],
    ensures
        split_lines(terminated(rows, "\n"@)) == rows,
{
    lemma_lines_of_terminated(rows);
}

/// A row that the program gives back as a line is the row that was chosen, where
/// it holds no line feed and has no white space around it. Where the program
/// does not report success, nothing was chosen.
pub proof fn law_answer_is_the_row(row: Seq<char>, rest: Seq<char>)
    requires
        row.len() > 0,
        !row.contains('\n'),
        trimmed(row) == row,
    ensures
        chosen_row(true, row + "\n"@ + rest) == Some(row),
        chosen_row(false, row + "\n"@ + rest) is None,
{
    lemma_first_line(row, rest);
    lemma_trimmed_parts(row);
    lemma_trimmed_has_no_return(row);
    assert(split_lines(row + "\n"@ + rest)[0] == row);
}

/// Whether what is found in a directory ends the search: a file that someone may
/// execute, or trouble other than that there is none.
pub open spec fn ends_search(entry: PathEntry) -> bool {
    match entry {
        None => false,
        Some(Ok(facts)) => facts.is_file && facts.mode & 0o111 != 0,
        Some(Err(e)) => e.kind != IoKind::NotFound,
    }
}

/// The first directory that ends the search decides what comes of it: the program
/// is there, or the trouble is reported. Where no directory ends it, or there is no
/// search path, the program is missing.
pub proof fn law_first_directory_decides(bin: Seq<char>, entries: Seq<PathEntry>, at: int)
    requires
        0 <= at <= entries.len(),
        forall|i: int| 0 <= i < at ==> !ends_search(#[trigger] entries[i]),
        at < entries.len() ==> ends_search(entries[at]),
    ensures
        which(bin, None) matches Err(e) && e.kind == IoKind::NotFound,
        if at == entries.len() {
            which(bin, Some(entries)) matches Err(e) && e.kind == IoKind::NotFound
        } else {
            match entries[at] {
                Some(Ok(_)) => which(bin, Some(entries)) is Ok,
                Some(Err(trouble)) => which(bin, Some(entries)) == Err::<(), IoFailureView>(
                    trouble@,
                ),
                None => false,
            }
        },
    decreases entries.len(),
{
    if entries.len() > 0 {
        let rest = entries.drop_first();
        if at > 0 {
            assert(!ends_search(entries[0]));
            assert forall|i: int| 0 <= i < at - 1 implies !ends_search(#[trigger] rest[i]) by {
                assert(rest[i] == entries[i + 1]);
            }
            law_first_directory_decides(bin, rest, at - 1);
            if at < entries.len() {
                assert(rest[at - 1] == entries[at]);
            }
        }
    }
}

/// A missing program is reported as such, with what it is needed for; any other
/// trouble is reported as it is. Both mean that there is no menu.
pub proof fn law_missing_program_is_reported(trouble: IoFailure, missing: Seq<char>)
    ensures
        availability(Ok(()), missing) is Ok,
        availability(Err(trouble), missing) matches Err(CliErrorView::PickerUnavailable(io)) && io
            == (if trouble.kind == IoKind::NotFound {
            IoFailureView { kind: IoKind::NotFound, message: missing }
        } else {
            trouble@
        }),
{
}

/// Nothing is chosen where the program does not report success, nor where it says
/// nothing on its first line. What is chosen is not empty, and has no white space
/// before or behind it.
pub proof fn law_choice_is_a_trimmed_line(success: bool, text: Seq<char>)
    ensures
        chosen_row(success, text) matches Some(row) ==> {
            &&& success
            &&& row.len() > 0
            &&& !is_white_space(row[0])
            &&& !is_white_space(row.last())
            &&& split_lines(text).len() > 0
        },
        success && split_lines(text).len() > 0 && (exists|i: int|
            0 <= i < split_lines(text)[0].len() && !is_white_space(
                #[trigger] split_lines(text)[0][i],
            )) ==> chosen_row(success, text) is Some,
{
    let lines = split_lines(text);
    if lines.len() > 0 {
        lemma_blank(lines[0]);
        lemma_trimmed_ends(lines[0]);
    }
}

/// A name that the program gives back as a line is the name that was typed, where it
/// holds no line feed and has no white space around it. Confirming without a name
/// and leaving the prompt are told apart.
pub proof fn law_answer_is_the_name(name: Seq<char>, rest: Seq<char>, outcome: NameOutcome)
    requires
        !name.contains('\n'),
        trimmed(name) == name,
    ensures
        name_meant(true, name + "\n"@ + rest, outcome) <==> (if name.len() > 0 {
            outcome matches NameOutcome::Typed(n) && n@ == name
        } else {
            outcome is Unnamed
        }),
        name_meant(false, name + "\n"@ + rest, outcome) <==> outcome is Cancelled,
{
    lemma_first_line(name, rest);
    lemma_trimmed_parts(name);
    lemma_trimmed_has_no_return(name);
    assert(split_lines(name + "\n"@ + rest)[0] == name);
}

/// A line is shown if and only if the program behaved oddly: it reports success and
/// says nothing, or says something and does not report success.
pub proof fn law_odd_answers_are_told(success: bool, text: Seq<char>)
    ensures
        odd_answer(success, text) is Some <==> success != (first_line(text).len() > 0),
        odd_answer(success, text) is Some ==> chosen_row(success, text) is None,
{
}

} // verus!
