//! The `save` subcommand: declaring an activity in the config file, so that the
//! compositor knows it after the next start.
//!
//! The file is written first and reloaded then. Where reloading fails the file
//! stays as it was written, and the user is told so. An activity that the file
//! declares already, in whatever letter case, is not declared again: nothing is
//! written and nothing is reloaded.
//!
//! What stands in the file stays as it is. The declaration goes behind the last
//! node where the document that was read can be written without a change, and
//! behind the whole text otherwise. Both are read again first: where neither
//! gives the old nodes and the declaration, an empty line comes before it.

use crate::config_document::{ACTIVITY_NODE, ENTRY_GAP, Head, HeadText, Parsed,
    RESERVED_ANNOTATION, all_declaring, body_of, declaration, declarations, declares_only,
    declaring, document_tail, document_text, far_below, head, heads, lemma_declarations_parsable,
    lemma_far_below_parsable, new_document, node_heads, nodes_of, parse_document, push_node,
    quoted_string, read_text, reads_as, tail_of};
use crate::config_scan::{can_be_parsed, parsable};
use crate::error::{CauseView, CliError, CliErrorView, IoFailure, IoFailureView, IoKind,
    MalformedResponseSource, typed, typed_in};
use crate::flow::{AfterConfigRead, AfterConfigWritten, AfterReply, Progress, ProgressView, Step,
    StepView, done, failed, plain, sending};
use crate::ipc::{Action, ActionView, IpcError, Reply, Request, RequestView, Response};
use crate::ipc_helpers::{result_of, unexpected};
use crate::search::{first_where, lemma_first_is, lemma_first_none, lemma_first_where};
use crate::text::{chars_of, debug_form, debug_text, is_white_space, lemma_blank, lemma_not_blank,
    str_eq, texts, trim, trimmed};
use kdl::KdlDocument;
use vstd::prelude::*;
use vstd::string::*;

verus! {

// ---- Names -----------------------------------------------------------------

/// A character without its letter case, for the letters A to Z.
pub open spec fn folded(c: char) -> char {
    if 'A' <= c <= 'Z' {
        ((c as int) + 32) as char
    } else {
        c
    }
}

/// Whether the compositor takes two names for one: letter case does not count,
/// for the letters A to Z.
pub open spec fn same_name(a: Seq<char>, b: Seq<char>) -> bool {
    a.len() == b.len() && forall|i: int| 0 <= i < a.len() ==> folded(#[trigger] a[i]) == folded(b[i])
}

/// Whether all characters are ASCII.
pub open spec fn is_ascii(s: Seq<char>) -> bool {
    forall|i: int| 0 <= i < s.len() ==> (#[trigger] s[i] as int) < 128
}

fn fold(c: char) -> (r: char)
    ensures
        r == folded(c),
{
    if 'A' <= c && c <= 'Z' {
        (c as u8 + 32) as char
    } else {
        c
    }
}

fn are_same_name(a: &str, b: &str) -> (r: bool)
    ensures
        r == same_name(a@, b@),
{
    let x = chars_of(a);
    let y = chars_of(b);
    if x.len() != y.len() {
        return false;
    }
    let mut i: usize = 0;
    while i < x.len()
        invariant
            x@ == a@,
            y@ == b@,
            x@.len() == y@.len(),
            i <= x@.len(),
            forall|j: int| 0 <= j < i ==> folded(#[trigger] a@[j]) == folded(b@[j]),
        decreases x@.len() - i,
    {
        if fold(x[i]) != fold(y[i]) {
            proof {
                assert(folded(a@[i as int]) != folded(b@[i as int]));
            }
            return false;
        }
        i = i + 1;
    }
    true
}

fn all_ascii(s: &str) -> (r: bool)
    ensures
        r == is_ascii(s@),
{
    let chars = chars_of(s);
    let mut i: usize = 0;
    while i < chars.len()
        invariant
            chars@ == s@,
            i <= chars@.len(),
            forall|j: int| 0 <= j < i ==> (#[trigger] s@[j] as int) < 128,
        decreases chars@.len() - i,
    {
        if chars[i] > '\u{7f}' {
            proof {
                assert(s@[i as int] as int >= 128);
            }
            return false;
        }
        i = i + 1;
    }
    true
}

// ---- Looking for the name --------------------------------------------------

/// Shown for each declared name that could be the same by rules that go beyond
/// ASCII.
pub const ASCII_ONLY: &'static str =
    "jiji-activities: note: activity name contains non-ASCII characters; collision detection is ASCII-only";

/// What a node declares, where it declares an activity: its first entry.
pub open spec fn declared_by(node: Head) -> Option<Result<Seq<char>, Seq<char>>> {
    if node.0 == ACTIVITY_NODE@ {
        node.1
    } else {
        None
    }
}

/// Whether a node settles whether `name` can be declared: it declares the same
/// name, or something that is no name.
pub open spec fn settles(name: Seq<char>) -> spec_fn(Head) -> bool {
    |node: Head|
        match declared_by(node) {
            Some(Ok(other)) => same_name(other, name),
            Some(Err(_)) => true,
            None => false,
        }
}

/// Whether a node declares another name, but one that rules beyond ASCII could
/// take for the same.
pub open spec fn is_doubtful(name: Seq<char>) -> spec_fn(Head) -> bool {
    |node: Head|
        match declared_by(node) {
            Some(Ok(other)) => !same_name(other, name) && (!is_ascii(name) || !is_ascii(other)),
            _ => false,
        }
}

/// The complaint about a text that is not usable as a config file.
pub open spec fn invalid_config(message: Seq<char>) -> CliErrorView {
    CliErrorView::ConfigEdit(IoFailureView { kind: IoKind::InvalidData, message })
}

/// The complaint about a node that declares something that is no name.
pub open spec fn not_a_string(description: Seq<char>) -> CliErrorView {
    invalid_config(
        "niri config contains an `activity` node whose first entry is not a string (got "@
            + description + "); repair the config file before running `save`"@,
    )
}

/// Whether the nodes declare `name`, or why that cannot be told.
pub open spec fn verdict(nodes: Seq<Head>, name: Seq<char>) -> Result<bool, CliErrorView> {
    match first_where(nodes, settles(name)) {
        None => Ok(false),
        Some(i) => match declared_by(nodes[i]) {
            Some(Err(description)) => Err(not_a_string(description)),
            _ => Ok(true),
        },
    }
}

/// The nodes before the one that settles whether `name` can be declared.
pub open spec fn looked_at(nodes: Seq<Head>, name: Seq<char>) -> Seq<Head> {
    match first_where(nodes, settles(name)) {
        None => nodes,
        Some(i) => nodes.take(i),
    }
}

/// The lines to show about the nodes.
pub open spec fn doubts(nodes: Seq<Head>, name: Seq<char>) -> Seq<Seq<char>> {
    looked_at(nodes, name).filter(is_doubtful(name)).map_values(|node: Head| ASCII_ONLY@)
}

/// What the nodes say about a name.
#[derive(Debug)]
pub struct Lookup {
    /// Lines to show on stderr.
    pub notes: Vec<String>,
    /// Whether the name is declared.
    pub declared: Result<bool, CliError>,
}

fn note_line() -> (r: String)
    ensures
        r@ == ASCII_ONLY@,
{
    ASCII_ONLY.to_owned()
}

fn describe_node(description: &str) -> (r: CliError)
    ensures
        r@ == not_a_string(description@),
{
    let mut message =
        "niri config contains an `activity` node whose first entry is not a string (got ".to_owned();
    message.append(description);
    message.append("); repair the config file before running `save`");
    CliError::ConfigEdit(IoFailure { kind: IoKind::InvalidData, message })
}

/// Looks for `name` among the nodes of the config file.
pub fn look_up(nodes: &Vec<HeadText>, name: &str) -> (r: Lookup)
    ensures
        texts(r.notes@) == doubts(heads(nodes@), name@),
        result_of(r.declared) == verdict(heads(nodes@), name@),
{
    let ghost all = heads(nodes@);
    let ghost stop = settles(name@);
    let ghost odd = is_doubtful(name@);
    let mut notes: Vec<String> = Vec::new();
    let mut i: usize = 0;
    proof {
        reveal(Seq::filter);
        assert(texts(notes@) =~= all.take(0).filter(odd).map_values(|node: Head| ASCII_ONLY@));
    }
    while i < nodes.len()
        invariant
            i <= nodes@.len(),
            all == heads(nodes@),
            stop == settles(name@),
            odd == is_doubtful(name@),
            forall|j: int| 0 <= j < i ==> !stop(#[trigger] all[j]),
            texts(notes@) == all.take(i as int).filter(odd).map_values(|node: Head| ASCII_ONLY@),
        decreases nodes@.len() - i,
    {
        let ghost before = notes@;
        proof {
            assert(all[i as int] == head(nodes@[i as int]));
            let next = all.take(i + 1);
            assert(next.drop_last() =~= all.take(i as int));
            assert(next.last() == all[i as int]);
            reveal(Seq::filter);
        }
        if str_eq(nodes[i].0.as_str(), ACTIVITY_NODE) {
            match &nodes[i].1 {
                Some(Ok(other)) => {
                    if are_same_name(other.as_str(), name) {
                        proof {
                            lemma_first_is(all, stop, i as int);
                        }
                        return Lookup { notes, declared: Ok(true) };
                    }
                    if !all_ascii(name) || !all_ascii(other.as_str()) {
                        notes.push(note_line());
                        proof {
                            assert(texts(notes@) =~= texts(before).push(ASCII_ONLY@));
                            assert(texts(notes@) =~= all.take(i + 1).filter(odd).map_values(
                                |node: Head| ASCII_ONLY@,
                            ));
                        }
                    }
                },
                Some(Err(description)) => {
                    proof {
                        lemma_first_is(all, stop, i as int);
                    }
                    return Lookup { notes, declared: Err(describe_node(description.as_str())) };
                },
                None => {},
            }
        }
        i = i + 1;
    }
    proof {
        lemma_first_none(all, stop);
        assert(all.take(i as int) =~= all);
    }
    Lookup { notes, declared: Ok(false) }
}

// ---- Declaring the name ----------------------------------------------------

/// What becomes of the config file.
#[derive(Debug, PartialEq, Eq)]
pub enum AppendOutcome {
    /// The text that it gets.
    Added(String),
    /// It declares the name already.
    AlreadyDeclared,
}

/// What an [`AppendOutcome`] holds.
pub enum AppendView {
    Added(Seq<char>),
    AlreadyDeclared,
}

impl View for AppendOutcome {
    type V = AppendView;

    open spec fn view(&self) -> AppendView {
        match self {
            AppendOutcome::Added(text) => AppendView::Added(text@),
            AppendOutcome::AlreadyDeclared => AppendView::AlreadyDeclared,
        }
    }
}

/// What becomes of the config file, with the lines to show on stderr.
#[derive(Debug)]
pub struct Append {
    pub notes: Vec<String>,
    pub outcome: Result<AppendOutcome, CliError>,
}

/// What an [`Append`] holds.
#[verifier::ext_equal]
pub struct AppendResult {
    pub notes: Seq<Seq<char>>,
    pub outcome: Result<AppendView, CliErrorView>,
}

impl View for Append {
    type V = AppendResult;

    open spec fn view(&self) -> AppendResult {
        AppendResult {
            notes: texts(self.notes@),
            outcome: match self.outcome {
                Ok(o) => Ok(o@),
                Err(e) => Err(e@),
            },
        }
    }
}

/// What goes before the declaration, so that it begins on a line of its own.
pub open spec fn lead(existing: Seq<char>) -> Seq<char> {
    if existing.len() > 0 && existing.last() != '\n' {
        "\n"@
    } else {
        Seq::empty()
    }
}

/// Whether the text that is written of a document can stand for the text that it
/// was read from: where nothing but the line feed at its end was put in. A blank
/// text is not kept.
pub open spec fn stands_for(existing: Seq<char>, written: Seq<char>) -> bool {
    written == existing || written == existing.push('\n') || trimmed(existing).len() == 0
}

/// Whether a declaration behind `body` begins on a line of its own.
pub open spec fn begins_line(body: Seq<char>, existing: Seq<char>) -> bool {
    body.len() == 0 || body.last() == '\n' || lead(existing).len() > 0
}

/// The text with `name` declared in it: behind the last node, where the document
/// can stand for the text; else behind the text; else below it. The first place
/// is taken where the new text gives the old nodes and the declaration.
pub open spec fn new_text(
    nodes: Seq<Head>,
    body: Seq<char>,
    tail: Seq<char>,
    existing: Seq<char>,
    name: Seq<char>,
) -> Seq<char> {
    let within = body + lead(existing) + declaration(name) + tail;
    let behind = existing + lead(existing) + declaration(name);
    if stands_for(existing, body + tail) && begins_line(body, existing) && reads_as(
        within,
        nodes,
        name,
    ) {
        within
    } else if reads_as(behind, nodes, name) {
        behind
    } else {
        far_below(existing, name)
    }
}

/// What becomes of the text `existing`, once it was read.
pub open spec fn appended(
    read: Result<Parsed, Seq<char>>,
    existing: Seq<char>,
    name: Seq<char>,
) -> AppendResult {
    match read {
        Err(message) => AppendResult {
            notes: Seq::empty(),
            outcome: Err(invalid_config("niri config is not valid KDL: "@ + message)),
        },
        Ok((nodes, body, tail)) => AppendResult {
            notes: doubts(nodes, name),
            outcome: match verdict(nodes, name) {
                Err(e) => Err(e),
                Ok(true) => Ok(AppendView::AlreadyDeclared),
                Ok(false) => Ok(AppendView::Added(new_text(nodes, body, tail, existing, name))),
            },
        },
    }
}

/// What is read from the text `existing`: a blank one holds nothing.
pub open spec fn read_config(existing: Seq<char>) -> Result<Parsed, Seq<char>> {
    if trimmed(existing).len() == 0 {
        Ok((Seq::empty(), Seq::empty(), Seq::empty()))
    } else {
        read_text(existing)
    }
}

proof fn lemma_activity_is_bare()
    ensures
        crate::config_document::is_bare_word(ACTIVITY_NODE@),
{
    reveal_strlit("activity");
    reveal_strlit("true");
    reveal_strlit("false");
    reveal_strlit("null");
    reveal_strlit("inf");
    reveal_strlit("nan");
    let word = ACTIVITY_NODE@;
    assert(word =~= seq!['a', 'c', 't', 'i', 'v', 'i', 't', 'y']);
    assert(word.len() == 8);
    assert("true"@.len() == 4 && "false"@.len() == 5 && "null"@.len() == 4);
    assert("inf"@.len() == 3 && "nan"@.len() == 3);
}

fn lead_text(existing: &str) -> (r: &'static str)
    ensures
        r@ == lead(existing@),
{
    let chars = chars_of(existing);
    proof {
        reveal_strlit("");
        assert(""@ =~= Seq::<char>::empty());
    }
    if chars.len() > 0 && chars[chars.len() - 1] != '\n' {
        "\n"
    } else {
        ""
    }
}

fn are_same_heads(a: &HeadText, b: &HeadText) -> (r: bool)
    ensures
        r == (head(*a) == head(*b)),
{
    if !str_eq(a.0.as_str(), b.0.as_str()) {
        return false;
    }
    match (&a.1, &b.1) {
        (None, None) => true,
        (Some(Ok(x)), Some(Ok(y))) => str_eq(x.as_str(), y.as_str()),
        (Some(Err(x)), Some(Err(y))) => str_eq(x.as_str(), y.as_str()),
        _ => false,
    }
}

fn are_with_name(again: &Vec<HeadText>, nodes: &Vec<HeadText>, name: &str) -> (r: bool)
    ensures
        r == (heads(again@) == heads(nodes@).push(declaring(name@))),
{
    let ghost wanted = heads(nodes@).push(declaring(name@));
    proof {
        assert(heads(again@).len() == again@.len());
        assert(wanted.len() == nodes@.len() + 1);
    }
    if again.len() == 0 || again.len() - 1 != nodes.len() {
        return false;
    }
    let last: usize = nodes.len();
    let mut i: usize = 0;
    while i < last
        invariant
            last == nodes@.len(),
            again@.len() == last + 1,
            i <= last,
            wanted == heads(nodes@).push(declaring(name@)),
            forall|j: int| 0 <= j < i ==> heads(again@)[j] == wanted[j],
        decreases last - i,
    {
        proof {
            assert(heads(again@)[i as int] == head(again@[i as int]));
            assert(wanted[i as int] == head(nodes@[i as int]));
        }
        if !are_same_heads(&again[i], &nodes[i]) {
            return false;
        }
        i = i + 1;
    }
    proof {
        assert(heads(again@)[last as int] == head(again@[last as int]));
        assert(wanted[last as int] == declaring(name@));
    }
    let declares = str_eq(again[last].0.as_str(), ACTIVITY_NODE) && match &again[last].1 {
        Some(Ok(text)) => str_eq(text.as_str(), name),
        _ => false,
    };
    proof {
        if declares {
            assert(heads(again@) =~= wanted);
        }
    }
    declares
}

/// Reads a text again, to see whether it gives the given nodes and behind them
/// the declaration of `name`.
fn is_read_as(text: &str, nodes: &Vec<HeadText>, name: &str) -> (r: bool)
    ensures
        r == reads_as(text@, heads(nodes@), name@),
        forall|names: Seq<Seq<char>>| #[trigger]
            declares_only(text@, names) ==> read_text(text@) == Ok::<Parsed, Seq<char>>(
                (all_declaring(names), text@, Seq::empty()),
            ),
{
    proof {
        assert forall|names: Seq<Seq<char>>| #[trigger]
            declares_only(text@, names) implies parsable(text@) by {
            lemma_declares_only(text@, names);
        }
    }
    if !can_be_parsed(text) {
        return false;
    }
    match parse_document(text) {
        Ok(document) => are_with_name(&node_heads(&document), nodes, name),
        Err(_) => false,
    }
}

/// A text that declares activities and nothing else can be parsed, is not blank
/// and ends in a line feed.
proof fn lemma_declares_only(text: Seq<char>, names: Seq<Seq<char>>)
    requires
        declares_only(text, names),
    ensures
        parsable(text),
        trimmed(text).len() > 0,
        text.len() > 0,
        text.last() == '\n',
{
    reveal_strlit("\n");
    let lines = declarations(names);
    lemma_declarations_parsable(names, Seq::empty());
    assert(lines + Seq::<char>::empty() =~= lines);
    lemma_declarations_end(names);
    let i = choose|i: int| 0 <= i < lines.len() && lines[i] == 'a';
    if text == lines {
        assert(text[i] == 'a');
        lemma_not_blank(text, i);
    } else {
        assert(text[i + 1] == 'a');
        lemma_not_blank(text, i + 1);
    }
}

/// Whether what is put in before `tail` begins on a line of its own, in a text
/// that ends with it.
fn is_at_line_start(written: &str, tail: &str, Ghost(body): Ghost<Seq<char>>) -> (r: bool)
    requires
        written@ == body + tail@,
    ensures
        r == (body.len() == 0 || body.last() == '\n'),
{
    let chars = chars_of(written);
    let end = chars_of(tail);
    let at: usize = chars.len() - end.len();
    at == 0 || chars[at - 1] == '\n'
}

/// Whether the text that is written of a document can stand for `existing`.
fn can_stand_for(existing: &str, written: &str) -> (r: bool)
    ensures
        r == stands_for(existing@, written@),
{
    if str_eq(written, existing) || trim(existing).as_str().is_empty() {
        return true;
    }
    let mut ended = existing.to_owned();
    ended.push('\n');
    str_eq(written, ended.as_str())
}

/// Declares `name` in a document that was read from `existing`, unless it does
/// so already.
pub fn append_to_document(
    document: Result<KdlDocument, String>,
    existing: &str,
    name: &str,
) -> (r: Append)
    ensures
        r@ == appended(
            match document {
                Ok(d) => Ok((nodes_of(d), body_of(d), tail_of(d))),
                Err(message) => Err(message@),
            },
            existing@,
            name@,
        ),
        match (document, r@.outcome) {
            (Ok(d), Ok(AppendView::Added(_))) => {
                let within = body_of(d) + lead(existing@) + declaration(name@) + tail_of(d);
                stands_for(existing@, body_of(d) + tail_of(d)) && begins_line(
                    body_of(d),
                    existing@,
                ) ==> forall|names: Seq<Seq<char>>| #[trigger]
                    declares_only(within, names) ==> read_text(within) == Ok::<
                        Parsed,
                        Seq<char>,
                    >((all_declaring(names), within, Seq::empty()))
            },
            _ => true,
        },
{
    match document {
        Err(message) => {
            let mut text = "niri config is not valid KDL: ".to_owned();
            text.append(message.as_str());
            let r = Append {
                notes: Vec::new(),
                outcome: Err(
                    CliError::ConfigEdit(IoFailure { kind: IoKind::InvalidData, message: text }),
                ),
            };
            proof {
                assert(r@.notes =~= Seq::<Seq<char>>::empty());
            }
            r
        },
        Ok(read) => {
            let nodes = node_heads(&read);
            let found = look_up(&nodes, name);
            match found.declared {
                Err(e) => Append { notes: found.notes, outcome: Err(e) },
                Ok(true) => Append {
                    notes: found.notes,
                    outcome: Ok(AppendOutcome::AlreadyDeclared),
                },
                Ok(false) => {
                    let text = declare(read, &nodes, existing, name);
                    Append { notes: found.notes, outcome: Ok(AppendOutcome::Added(text)) }
                },
            }
        },
    }
}

/// Declares `name` in a document that was read from `existing` and has the given
/// nodes.
fn declare(read: KdlDocument, nodes: &Vec<HeadText>, existing: &str, name: &str) -> (r: String)
    requires
        heads(nodes@) == nodes_of(read),
    ensures
        r@ == new_text(nodes_of(read), body_of(read), tail_of(read), existing@, name@),
        ({
            let within = body_of(read) + lead(existing@) + declaration(name@) + tail_of(read);
            stands_for(existing@, body_of(read) + tail_of(read)) && begins_line(
                body_of(read),
                existing@,
            ) ==> forall|names: Seq<Seq<char>>| #[trigger]
                declares_only(within, names) ==> read_text(within) == Ok::<Parsed, Seq<char>>(
                    (all_declaring(names), within, Seq::empty()),
                )
        }),
{
    let value_repr = quoted_string(name);
    let leading = lead_text(existing);
    let mut line = leading.to_owned();
    line.append(ACTIVITY_NODE);
    line.append(ENTRY_GAP);
    line.append(value_repr.as_str());
    line.append("\n");
    proof {
        assert(line@ =~= lead(existing@) + declaration(name@));
    }
    let written = document_text(&read);
    let tail = document_tail(&read);
    let apart = !leading.is_empty() || is_at_line_start(
        written.as_str(),
        tail.as_str(),
        Ghost(body_of(read)),
    );
    if apart && can_stand_for(existing, written.as_str()) {
        let mut document = read;
        proof {
            lemma_activity_is_bare();
        }
        push_node(&mut document, leading, ACTIVITY_NODE, ENTRY_GAP, name, value_repr.as_str());
        let within = document_text(&document);
        proof {
            assert(within@ =~= body_of(read) + lead(existing@) + declaration(name@) + tail_of(
                read,
            ));
        }
        if is_read_as(within.as_str(), nodes, name) {
            return within;
        }
    }
    let behind = existing.to_owned().concat(line.as_str());
    proof {
        assert(behind@ =~= existing@ + lead(existing@) + declaration(name@));
    }
    if is_read_as(behind.as_str(), nodes, name) {
        return behind;
    }
    let mut below = existing.to_owned();
    below.append("\n\n");
    below.append(ACTIVITY_NODE);
    below.append(ENTRY_GAP);
    below.append(value_repr.as_str());
    below.append("\n");
    proof {
        assert(below@ =~= far_below(existing@, name@));
    }
    below
}

/// Whether one of the names is taken for `name`.
pub open spec fn declares_name(names: Seq<Seq<char>>, name: Seq<char>) -> bool {
    exists|i: int| 0 <= i < names.len() && same_name(#[trigger] names[i], name)
}

proof fn lemma_declarations_end(names: Seq<Seq<char>>)
    requires
        names.len() > 0,
    ensures
        declarations(names).len() > 0,
        declarations(names).last() == '\n',
        exists|i: int| 0 <= i < declarations(names).len() && declarations(names)[i] == 'a',
{
    reveal_strlit("activity");
    reveal_strlit("\n");
    let line = declaration(names.last());
    let front = declarations(names.drop_last());
    assert(line.last() == '\n');
    assert(line[0] == 'a');
    assert(declarations(names) == front + line);
    assert(declarations(names)[front.len() as int] == 'a');
}

/// A text that declares activities, and holds nothing else, declares exactly
/// those; with another declaration behind it, it is again of that form.
proof fn lemma_only_declared(
    text: Seq<char>,
    names: Seq<Seq<char>>,
    name: Seq<char>,
)
    requires
        declares_only(text, names),
    ensures
        verdict(all_declaring(names), name) == Ok::<bool, CliErrorView>(declares_name(names, name)),
        declares_only(text + declaration(name), names.push(name)),
        all_declaring(names.push(name)) == all_declaring(names).push(declaring(name)),
{
    let lines = declarations(names);
    let nodes = all_declaring(names);
    let p = settles(name);
    lemma_first_where(nodes, p);
    assert forall|k: int| 0 <= k < names.len() implies p(#[trigger] nodes[k]) == same_name(
        names[k],
        name,
    ) by {
        assert(nodes[k] == declaring(names[k]));
    }
    match first_where(nodes, p) {
        Some(k) => {
            assert(p(nodes[k]));
            assert(same_name(names[k], name));
            assert(nodes[k] == declaring(names[k]));
        },
        None => {
            if declares_name(names, name) {
                let k = choose|k: int| 0 <= k < names.len() && same_name(#[trigger] names[k], name);
                assert(!p(nodes[k]));
            }
        },
    }
    let more = names.push(name);
    assert(more.drop_last() =~= names);
    assert(declarations(more) == lines + declaration(name));
    if text == lines {
        assert(text + declaration(name) =~= declarations(more));
    } else {
        assert(text + declaration(name) =~= "\n"@ + declarations(more));
    }
    assert(all_declaring(more) =~= nodes.push(declaring(name)));
}

/// Which names are taken for one is the same whichever of them is looked for.
proof fn lemma_same_name(a: Seq<char>, b: Seq<char>, c: Seq<char>)
    requires
        same_name(a, b),
    ensures
        same_name(c, a) == same_name(c, b),
{
    if same_name(c, a) {
        assert forall|i: int| 0 <= i < c.len() implies folded(#[trigger] c[i]) == folded(b[i]) by {
            assert(folded(a[i]) == folded(b[i]));
        }
    }
    if same_name(c, b) {
        assert forall|i: int| 0 <= i < c.len() implies folded(#[trigger] c[i]) == folded(a[i]) by {
            assert(folded(a[i]) == folded(b[i]));
        }
    }
}

/// A name that was declared behind the other nodes is found again, in whatever
/// letter case.
pub proof fn law_declared_name_is_found(nodes: Seq<Head>, name: Seq<char>, again: Seq<char>)
    requires
        verdict(nodes, name) == Ok::<bool, CliErrorView>(false),
        same_name(name, again),
    ensures
        verdict(nodes.push(declaring(name)), again) == Ok::<bool, CliErrorView>(true),
{
    let more = nodes.push(declaring(name));
    lemma_first_where(nodes, settles(name));
    assert forall|i: int| 0 <= i < nodes.len() implies !settles(again)(#[trigger] more[i]) by {
        assert(more[i] == nodes[i]);
        assert(!settles(name)(nodes[i]));
        match declared_by(nodes[i]) {
            Some(Ok(other)) => {
                lemma_same_name(name, again, other);
            },
            _ => {},
        }
    }
    assert(more[nodes.len() as int] == declaring(name));
    lemma_first_is(more, settles(again), nodes.len() as int);
}

/// Saving an activity once more changes nothing, in whatever letter case: a text
/// that gives the nodes among which the name was missing, and then its
/// declaration, declares it.
pub proof fn law_saving_again_changes_nothing(
    nodes: Seq<Head>,
    name: Seq<char>,
    text: Seq<char>,
    again: Seq<char>,
)
    requires
        verdict(nodes, name) == Ok::<bool, CliErrorView>(false),
        read_config(text) matches Ok((now, _, _)) && now == nodes.push(declaring(name)),
        same_name(name, again),
    ensures
        appended(read_config(text), text, again).outcome == Ok::<AppendView, CliErrorView>(
            AppendView::AlreadyDeclared,
        ),
{
    law_declared_name_is_found(nodes, name, again);
}

/// Whether `text` is the text `whole` with the declaration of `name` put in at
/// `at`, with the line feeds `gap` before it, on a line of its own.
pub open spec fn puts_in(
    text: Seq<char>,
    whole: Seq<char>,
    at: int,
    gap: Seq<char>,
    name: Seq<char>,
) -> bool {
    &&& 0 <= at <= whole.len()
    &&& text == whole.take(at) + gap + declaration(name) + whole.skip(at)
    &&& forall|i: int| 0 <= i < gap.len() ==> gap[i] == '\n'
    &&& gap.len() > 0 || at == 0 || whole[at - 1] == '\n'
}

/// Whether `text` is `existing`, perhaps with a line feed at its end, with the
/// declaration of `name` put in on a line of its own.
pub open spec fn only_adds(text: Seq<char>, existing: Seq<char>, name: Seq<char>) -> bool {
    exists|whole: Seq<char>, at: int, gap: Seq<char>|
        (whole == existing || whole == existing.push('\n')) && #[trigger] puts_in(
            text,
            whole,
            at,
            gap,
            name,
        )
}

/// Saving only adds: whatever stands in the file stays as it is, comments and
/// spacing included, and the declaration gets a line of its own.
pub proof fn law_save_only_adds(
    nodes: Seq<Head>,
    body: Seq<char>,
    tail: Seq<char>,
    existing: Seq<char>,
    name: Seq<char>,
)
    requires
        trimmed(existing).len() > 0,
    ensures
        only_adds(new_text(nodes, body, tail, existing, name), existing, name),
{
    reveal_strlit("\n");
    reveal_strlit("\n\n");
    let text = new_text(nodes, body, tail, existing, name);
    let within = body + lead(existing) + declaration(name) + tail;
    let behind = existing + lead(existing) + declaration(name);
    let end = existing.len() as int;
    assert(existing.take(end) =~= existing);
    if stands_for(existing, body + tail) && begins_line(body, existing) && reads_as(
        within,
        nodes,
        name,
    ) {
        let whole = body + tail;
        let at = body.len() as int;
        assert(whole.take(at) =~= body);
        assert(whole.skip(at) =~= tail);
        assert(puts_in(text, whole, at, lead(existing), name));
    } else if reads_as(behind, nodes, name) {
        lemma_not_empty(existing);
        assert(text =~= existing.take(end) + lead(existing) + declaration(name) + existing.skip(
            end,
        ));
        assert(puts_in(text, existing, end, lead(existing), name));
    } else {
        assert(text =~= existing.take(end) + "\n\n"@ + declaration(name) + existing.skip(end));
        assert(puts_in(text, existing, end, "\n\n"@, name));
    }
}

/// A text that is not blank is not empty.
proof fn lemma_not_empty(s: Seq<char>)
    requires
        trimmed(s).len() > 0,
    ensures
        s.len() > 0,
{
}

/// A text that gives a declaration is read like any other, for it is not blank.
proof fn lemma_added_is_read(text: Seq<char>, before: Seq<char>, name: Seq<char>, tail: Seq<char>)
    requires
        text == before + declaration(name) + tail,
    ensures
        read_config(text) == read_text(text),
{
    reveal_strlit("activity");
    let at = before.len() as int;
    assert(declaration(name)[0] == 'a');
    assert(text[at] == 'a');
    lemma_not_blank(text, at);
}

/// The new text is read like any other.
proof fn lemma_new_text_is_read(
    nodes: Seq<Head>,
    body: Seq<char>,
    tail: Seq<char>,
    existing: Seq<char>,
    name: Seq<char>,
)
    ensures
        ({
            let text = new_text(nodes, body, tail, existing, name);
            read_config(text) == read_text(text)
        }),
{
    let none = Seq::<char>::empty();
    lemma_added_is_read(
        body + lead(existing) + declaration(name) + tail,
        body + lead(existing),
        name,
        tail,
    );
    let behind = existing + lead(existing) + declaration(name);
    assert(behind =~= existing + lead(existing) + declaration(name) + none);
    lemma_added_is_read(behind, existing + lead(existing), name, none);
    let below = far_below(existing, name);
    assert(below =~= existing + "\n\n"@ + declaration(name) + none);
    lemma_added_is_read(below, existing + "\n\n"@, name, none);
}

/// Declares `name` in the text of a config file, unless that does so already.
///
/// A text that is not a document is left alone, and so is one that declares
/// something that is no name. Any other text that does not declare the name gets
/// a line for it: read again, the new text gives the old nodes, in order, and the
/// declaration, and declaring the name once more, in whatever letter case,
/// changes nothing. All that stood in the text is kept; a blank one is started
/// afresh.
pub fn append_activity_if_absent(existing: &str, name: &str) -> (r: Append)
    ensures
        r@ == appended(read_config(existing@), existing@, name@),
        match (read_config(existing@), r@.outcome) {
            (Ok((nodes, _, _)), Ok(AppendView::Added(text))) => {
                &&& read_config(text) matches Ok((now, _, _)) && now == nodes.push(
                    declaring(name@),
                )
                &&& forall|again: Seq<char>|
                    same_name(name@, again) ==> (#[trigger] appended(
                        read_config(text),
                        text,
                        again,
                    )).outcome == Ok::<AppendView, CliErrorView>(AppendView::AlreadyDeclared)
                &&& trimmed(existing@).len() > 0 ==> only_adds(text, existing@, name@)
            },
            _ => true,
        },
        trimmed(existing@).len() == 0 ==> r@.outcome == Ok::<AppendView, CliErrorView>(
            AppendView::Added(lead(existing@) + declaration(name@)),
        ),
        forall|names: Seq<Seq<char>>| #[trigger]
            declares_only(existing@, names) ==> r@.outcome == Ok::<AppendView, CliErrorView>(
                if declares_name(names, name@) {
                    AppendView::AlreadyDeclared
                } else {
                    AppendView::Added(existing@ + declaration(name@))
                },
            ),
{
    proof {
        assert forall|names: Seq<Seq<char>>| #[trigger]
            declares_only(existing@, names) implies trimmed(existing@).len() > 0 && parsable(
            existing@,
        ) by {
            lemma_declares_only(existing@, names);
        }
    }
    let r = if trim(existing).as_str().is_empty() {
        let r = append_to_document(Ok(new_document()), existing, name);
        proof {
            lemma_first_declaration(existing@, name@);
        }
        r
    } else if !can_be_parsed(existing) {
        append_to_document(Err(RESERVED_ANNOTATION.to_owned()), existing, name)
    } else {
        let document = parse_document(existing);
        proof {
            if document is Ok {
                lemma_far_below_parsable(existing@, name@);
            }
        }
        let r = append_to_document(document, existing, name);
        proof {
            assert forall|names: Seq<Seq<char>>| #[trigger]
                declares_only(existing@, names) implies r@.outcome == Ok::<
                AppendView,
                CliErrorView,
            >(
                if declares_name(names, name@) {
                    AppendView::AlreadyDeclared
                } else {
                    AppendView::Added(existing@ + declaration(name@))
                },
            ) by {
                lemma_only_declared(existing@, names, name@);
                lemma_declares_only(existing@, names);
                let none = Seq::<char>::empty();
                assert(existing@ + none =~= existing@);
                let within = existing@ + lead(existing@) + declaration(name@) + none;
                assert(within =~= existing@ + declaration(name@));
                assert(declares_only(within, names.push(name@)));
            }
        }
        r
    };
    proof {
        match (read_config(existing@), r@.outcome) {
            (Ok((nodes, body, tail)), Ok(AppendView::Added(text))) => {
                lemma_new_text_is_read(nodes, body, tail, existing@, name@);
                if trimmed(existing@).len() > 0 {
                    law_save_only_adds(nodes, body, tail, existing@, name@);
                }
                assert forall|again: Seq<char>| same_name(name@, again) implies (
                #[trigger] appended(read_config(text), text, again)).outcome == Ok::<
                    AppendView,
                    CliErrorView,
                >(AppendView::AlreadyDeclared) by {
                    law_saving_again_changes_nothing(nodes, name@, text, again);
                }
            },
            _ => {},
        }
    }
    r
}

/// A declaration for itself declares one activity.
proof fn lemma_first_declaration(existing: Seq<char>, name: Seq<char>)
    ensures
        ({
            let none = Seq::<char>::empty();
            let text = none + lead(existing) + declaration(name) + none;
            &&& text == lead(existing) + declaration(name)
            &&& declares_only(text, seq![name])
            &&& all_declaring(seq![name]) == Seq::<Head>::empty().push(declaring(name))
            &&& verdict(Seq::<Head>::empty(), name) == Ok::<bool, CliErrorView>(false)
        }),
{
    let none = Seq::<char>::empty();
    let names = seq![name];
    lemma_first_none(Seq::<Head>::empty(), settles(name));
    assert(none + lead(existing) + declaration(name) + none =~= lead(existing) + declaration(
        name,
    ));
    assert(names.drop_last().len() == 0);
    assert(declarations(names.drop_last()) =~= none);
    assert(declarations(names) =~= declaration(name));
    assert(none + declaration(name) =~= declaration(name));
    assert(all_declaring(names) =~= Seq::<Head>::empty().push(declaring(name)));
}

// ---- Paths -----------------------------------------------------------------

/// The environment variable that gives the path of the config file.
pub const JIJI_CONFIG_ENV: &'static str = "JIJI_CONFIG";

/// The name of the config file within its directory.
pub const CONFIG_FILE_NAME: &'static str = "config.kdl";

/// What is put behind a file name while the file is being written.
pub const TMP_SUFFIX: &'static str = ".jiji-activities.tmp";

/// A file name within a directory, as a path.
pub open spec fn path_in(dir: Seq<u8>, file_name: Seq<u8>) -> Seq<u8> {
    if dir.len() == 0 {
        file_name
    } else if dir.last() == 0x2f {
        dir + file_name
    } else {
        dir.push(0x2f) + file_name
    }
}

fn append_bytes(bytes: &mut Vec<u8>, more: &[u8])
    ensures
        final(bytes)@ == old(bytes)@ + more@,
{
    let mut i: usize = 0;
    let ghost before = bytes@;
    proof {
        assert(before =~= before + more@.take(0));
    }
    while i < more.len()
        invariant
            i <= more@.len(),
            bytes@ == before + more@.take(i as int),
        decreases more@.len() - i,
    {
        bytes.push(more[i]);
        i = i + 1;
        proof {
            assert(bytes@ =~= before + more@.take(i as int));
        }
    }
    proof {
        assert(more@.take(i as int) =~= more@);
    }
}

fn join_path(dir: Vec<u8>, file_name: &[u8]) -> (r: Vec<u8>)
    ensures
        r@ == path_in(dir@, file_name@),
{
    let mut path = dir;
    if path.len() > 0 && path[path.len() - 1] != 0x2f {
        path.push(0x2f);
    }
    append_bytes(&mut path, file_name);
    proof {
        assert(path@ =~= path_in(dir@, file_name@));
    }
    path
}

/// What to say where there is no place for a config file.
pub const NO_CONFIG_PATH: &'static str =
    "could not determine jiji config path: $HOME is unset and $JIJI_CONFIG is not set. Set either to proceed.";

/// Where the config file is: where the environment says, else in the user's
/// config directory.
pub open spec fn config_path(
    variable: Option<Vec<u8>>,
    config_dir: Option<Vec<u8>>,
) -> Result<Seq<u8>, CliErrorView> {
    match (variable, config_dir) {
        (Some(path), _) if path@.len() > 0 => Ok(path@),
        (_, Some(dir)) => Ok(path_in(dir@, vstd::utf8::encode_utf8(CONFIG_FILE_NAME@))),
        (_, None) => Err(
            CliErrorView::ConfigEdit(
                IoFailureView { kind: IoKind::NotFound, message: NO_CONFIG_PATH@ },
            ),
        ),
    }
}

/// The bytes of a path, where there is one.
pub open spec fn path_of(path: Result<Vec<u8>, CliError>) -> Result<Seq<u8>, CliErrorView> {
    match path {
        Ok(bytes) => Ok(bytes@),
        Err(e) => Err(e@),
    }
}

/// Finds the config file.
#[derive(Debug, Clone, Copy, PartialEq, Eq)]
pub struct RealConfigPaths {}

impl RealConfigPaths {
    /// The path of the config file, from the value of [`JIJI_CONFIG_ENV`] and the
    /// user's config directory. An empty value counts as none.
    pub fn resolve(&self, variable: Option<Vec<u8>>, config_dir: Option<Vec<u8>>) -> (r: Result<
        Vec<u8>,
        CliError,
    >)
        ensures
            path_of(r) == config_path(variable, config_dir),
    {
        if let Some(path) = variable {
            if path.len() > 0 {
                return Ok(path);
            }
        }
        match config_dir {
            Some(dir) => Ok(join_path(dir, CONFIG_FILE_NAME.as_bytes())),
            None => Err(
                CliError::ConfigEdit(
                    IoFailure { kind: IoKind::NotFound, message: NO_CONFIG_PATH.to_owned() },
                ),
            ),
        }
    }
}

/// The file that is written before it takes the place of the config file: beside
/// it, so that both are on one file system.
pub open spec fn tmp_path(
    file_name: Option<Vec<u8>>,
    parent: Option<Vec<u8>>,
    shown: Seq<char>,
) -> Result<Seq<u8>, CliErrorView> {
    match file_name {
        None => Err(
            CliErrorView::ConfigEdit(
                IoFailureView {
                    kind: IoKind::InvalidInput,
                    message: "config path has no filename component: "@ + shown,
                },
            ),
        ),
        Some(name) => {
            let tmp = name@ + vstd::utf8::encode_utf8(TMP_SUFFIX@);
            match parent {
                Some(dir) => Ok(path_in(dir@, tmp)),
                None => Ok(tmp),
            }
        },
    }
}

/// The path of the file to write first, from the file name and the parent of the
/// config file's path. `shown` is that path as it is shown to the user.
pub fn tmp_path_for(
    file_name: Option<Vec<u8>>,
    parent: Option<Vec<u8>>,
    shown: &str,
) -> (r: Result<Vec<u8>, CliError>)
    ensures
        path_of(r) == tmp_path(file_name, parent, shown@),
{
    match file_name {
        None => {
            let mut message = "config path has no filename component: ".to_owned();
            message.append(shown);
            Err(CliError::ConfigEdit(IoFailure { kind: IoKind::InvalidInput, message }))
        },
        Some(name) => {
            let mut tmp = name;
            append_bytes(&mut tmp, TMP_SUFFIX.as_bytes());
            match parent {
                Some(dir) => Ok(join_path(dir, tmp.as_slice())),
                None => Ok(tmp),
            }
        },
    }
}

/// The complaint about a path that has no parent.
pub open spec fn no_parent(shown: Seq<char>) -> CliErrorView {
    CliErrorView::ConfigEdit(
        IoFailureView {
            kind: IoKind::InvalidInput,
            message: "config path has no parent directory: "@ + shown,
        },
    )
}

/// The directory that has to be there before the file can be written, if it is
/// not the current one. A path without a parent is refused. `shown` is the path
/// as it is shown to the user.
pub fn ensure_parent_dir(parent: Option<Vec<u8>>, shown: &str) -> (r: Result<
    Option<Vec<u8>>,
    CliError,
>)
    ensures
        match (parent, r) {
            (Some(dir), Ok(needed)) => needed == (if dir@.len() > 0 {
                Some(dir)
            } else {
                None
            }),
            (None, Err(e)) => e@ == no_parent(shown@),
            _ => false,
        },
{
    match parent {
        Some(dir) => Ok(
            if dir.len() > 0 {
                Some(dir)
            } else {
                None
            },
        ),
        None => {
            let mut message = "config path has no parent directory: ".to_owned();
            message.append(shown);
            Err(CliError::ConfigEdit(IoFailure { kind: IoKind::InvalidInput, message }))
        },
    }
}

/// The line to show where the file that was written first could not take its
/// place and cannot be removed either. That it is gone already is no matter.
pub open spec fn leftover(tmp: Seq<char>, removal: Result<(), IoFailureView>) -> Option<Seq<char>> {
    match removal {
        Err(io) if io.kind != IoKind::NotFound => Some(
            "jiji-activities: warning: could not remove tmp file "@ + tmp + ": "@ + io.message,
        ),
        _ => None,
    }
}

/// What an attempt holds.
pub open spec fn attempt(r: Result<(), IoFailure>) -> Result<(), IoFailureView> {
    match r {
        Ok(_) => Ok(()),
        Err(io) => Err(io@),
    }
}

/// The line to show after the file that was written first, shown as `tmp`, was
/// to be removed.
pub fn leftover_note(tmp: &str, removal: Result<(), IoFailure>) -> (r: Option<String>)
    ensures
        crate::text::text_of(r) == leftover(tmp@, attempt(removal)),
{
    match removal {
        Err(io) => if io.kind != IoKind::NotFound {
            let mut note = "jiji-activities: warning: could not remove tmp file ".to_owned();
            note.append(tmp);
            note.append(": ");
            note.append(io.message.as_str());
            Some(note)
        } else {
            None
        },
        Ok(_) => None,
    }
}

// ---- The subcommand --------------------------------------------------------

/// The operation during which the file is read and written.
pub const WRITING: &'static str = "writing config file";

/// The operation during which the compositor reads it.
pub const RELOADING: &'static str = "reloading niri config";

/// Declaring the activity `name`, as far as the name allows it.
pub open spec fn saving(name: String) -> ProgressView {
    if trimmed(name@).len() == 0 {
        failed(
            typed(
                CliErrorView::Usage(
                    "activity name must not be empty or whitespace-only (got "@ + debug_form(name@)
                        + ")"@,
                ),
            ),
        )
    } else {
        plain(StepView::ReadConfig { then: AfterConfigRead::Save { name } })
    }
}

/// Declares the activity `name`. A blank name is refused before anything is
/// touched.
pub fn run(name: String) -> (r: Progress)
    ensures
        r@ == saving(name),
{
    if trim(name.as_str()).as_str().is_empty() {
        let mut message = "activity name must not be empty or whitespace-only (got ".to_owned();
        message.append(debug_text(name.as_str()).as_str());
        message.append(")");
        Progress::fail(CliError::Usage(message))
    } else {
        Progress::at(Step::ReadConfig { then: AfterConfigRead::Save { name } })
    }
}

/// The config file: its path as shown to the user, and its text.
#[derive(Debug)]
pub struct ConfigFile {
    pub path: String,
    pub text: Result<String, IoFailure>,
}

/// What an attempt to read the file gives: one that is not there is empty.
pub open spec fn text_or_empty(text: Result<String, IoFailure>) -> Result<Seq<char>, CliErrorView> {
    match text {
        Ok(t) => Ok(t@),
        Err(io) => if io.kind == IoKind::NotFound {
            Ok(Seq::empty())
        } else {
            Err(CliErrorView::ConfigEdit(io@))
        },
    }
}

/// The text of the config file, which may be missing.
pub fn read_or_empty(text: Result<String, IoFailure>) -> (r: Result<String, CliError>)
    ensures
        match r {
            Ok(t) => text_or_empty(text) == Ok::<Seq<char>, CliErrorView>(t@),
            Err(e) => text_or_empty(text) == Err::<Seq<char>, CliErrorView>(e@),
        },
{
    match text {
        Ok(t) => Ok(t),
        Err(io) => match io.kind {
            IoKind::NotFound => {
                let none = String::new();
                proof {
                    assert(none@ =~= Seq::<char>::empty());
                }
                Ok(none)
            },
            _ => Err(CliError::ConfigEdit(io)),
        },
    }
}

/// The line shown where there is nothing to do.
pub open spec fn already_declared(name: Seq<char>) -> Seq<char> {
    "jiji-activities: activity \""@ + name + "\" is already declared in config; nothing to write"@
}

/// What follows an attempt to declare `name` in the file at `path`.
pub open spec fn after_append(result: AppendResult, name: Seq<char>, path: String) -> ProgressView {
    (match result.outcome {
        Err(e) => failed(typed_in(e, WRITING@)),
        Ok(AppendView::AlreadyDeclared) => done().noting(already_declared(name)),
        Ok(AppendView::Added(content)) => plain(
            StepView::WriteConfig { content, then: AfterConfigWritten::Save { path } },
        ),
    }).noting_all(result.notes)
}

/// What follows reading the config file, in order to declare `name`.
pub open spec fn after_reading(name: String, config: Result<ConfigFile, CliError>) -> ProgressView {
    match config {
        Err(e) => failed(typed_in(e@, WRITING@)),
        Ok(file) => match text_or_empty(file.text) {
            Err(e) => failed(typed_in(e, WRITING@)),
            Ok(existing) => after_append(
                appended(read_config(existing), existing, name@),
                name@,
                file.path,
            ),
        },
    }
}

fn proceed_with(append: Append, name: &str, path: String) -> (r: Progress)
    ensures
        r@ == after_append(append@, name@, path),
{
    let p = match append.outcome {
        Err(e) => Progress::fail_in(e, WRITING),
        Ok(AppendOutcome::AlreadyDeclared) => {
            let mut note = "jiji-activities: activity \"".to_owned();
            note.append(name);
            note.append("\" is already declared in config; nothing to write");
            Progress::done().noting(note)
        },
        Ok(AppendOutcome::Added(content)) => Progress::at(
            Step::WriteConfig { content, then: AfterConfigWritten::Save { path } },
        ),
    };
    p.noting_all(append.notes)
}

/// Goes on once the config file was read.
pub fn take_config(name: String, config: Result<ConfigFile, CliError>) -> (r: Progress)
    ensures
        r@ == after_reading(name, config),
{
    match config {
        Err(e) => Progress::fail_in(e, WRITING),
        Ok(file) => match read_or_empty(file.text) {
            Err(e) => Progress::fail_in(e, WRITING),
            Ok(existing) => {
                let append = append_activity_if_absent(existing.as_str(), name.as_str());
                proceed_with(append, name.as_str(), file.path)
            },
        },
    }
}

/// Asking the compositor to read its config file again.
pub open spec fn load_config_file() -> RequestView {
    RequestView::Action(ActionView::LoadConfigFile { path: None })
}

/// What follows writing the config file.
pub open spec fn after_writing(path: String, written: Result<(), IoFailure>) -> ProgressView {
    match written {
        Ok(_) => sending(load_config_file(), AfterReply::Reloaded { path }),
        Err(io) => failed(typed_in(CliErrorView::ConfigEdit(io@), WRITING@)),
    }
}

/// Goes on once the config file was written. The compositor is asked to read the
/// file that it uses, whichever that is.
pub fn dispatch_reload(path: String, written: Result<(), IoFailure>) -> (r: Progress)
    ensures
        r@ == after_writing(path, written),
{
    match written {
        Ok(_) => Progress::send(
            Request::Action(Action::LoadConfigFile { path: None }),
            AfterReply::Reloaded { path },
        ),
        Err(io) => Progress::fail_in(CliError::ConfigEdit(io), WRITING),
    }
}

/// The line shown where the file was written but not reloaded.
pub open spec fn written_breadcrumb(path: Seq<char>) -> Seq<char> {
    "jiji-activities: note: activity was written to "@ + path
        + "; run `niri msg action load-config-file` to reload manually"@
}

/// What a reply to the reload means. `shown` is the response as it is shown to
/// the user.
pub open spec fn reload_outcome(reply: Reply, shown: Seq<char>) -> Result<(), CliErrorView> {
    match reply {
        Ok(Response::Handled) => Ok(()),
        Ok(_) => Err(unexpected("Response::Handled"@, shown)),
        Err(e) => Err(e@.as_cli_error()),
    }
}

/// What follows the reload of the file that was written to `path`.
pub open spec fn after_reload(path: Seq<char>, reply: Reply, shown: Seq<char>) -> ProgressView {
    match reload_outcome(reply, shown) {
        Ok(_) => done(),
        Err(e) => failed(typed_in(e, RELOADING@)).noting(written_breadcrumb(path)),
    }
}

/// The line shown where the file was written but not reloaded.
pub fn emit_written_breadcrumb(path: &str) -> (r: String)
    ensures
        r@ == written_breadcrumb(path@),
{
    let mut line = "jiji-activities: note: activity was written to ".to_owned();
    line.append(path);
    line.append("; run `niri msg action load-config-file` to reload manually");
    line
}

/// Goes on once the compositor has answered to the reload.
pub fn reloaded(path: String, reply: Reply, shown: &str) -> (r: Progress)
    ensures
        r@ == after_reload(path@, reply, shown@),
{
    match reply {
        Ok(Response::Handled) => Progress::done(),
        Ok(_) => {
            let e = CliError::MalformedResponse(
                MalformedResponseSource::WrongVariant {
                    expected: "Response::Handled",
                    got: shown.to_owned(),
                },
            );
            Progress::fail_in(e, RELOADING).noting(emit_written_breadcrumb(path.as_str()))
        },
        Err(e) => Progress::fail_in(CliError::from(e), RELOADING).noting(
            emit_written_breadcrumb(path.as_str()),
        ),
    }
}

/// Nothing is asked of the compositor before the file was written, a file that
/// declares the name already is not written, and what cannot be written is not
/// reloaded.
pub proof fn law_write_before_reload(
    name: String,
    config: Result<ConfigFile, CliError>,
    path: String,
    written: Result<(), IoFailure>,
)
    ensures
        !(saving(name).step is Send) && !(saving(name).step is WriteConfig),
        match after_reading(name, config).step {
            StepView::WriteConfig { .. } => true,
            StepView::Finish { .. } => true,
            _ => false,
        },
        after_writing(path, written).step is Send <==> written is Ok,
{
}

/// Once the file was written, a failing reload does not take that back: the user
/// learns where the declaration is and how to reload it, and gets the failure.
pub proof fn law_failed_reload_leaves_a_note(path: Seq<char>, reply: Reply, shown: Seq<char>)
    requires
        reply != Ok::<Response, IpcError>(Response::Handled),
    ensures
        after_reload(path, reply, shown).notes == seq![written_breadcrumb(path)],
        after_reload(path, reply, shown).step matches StepView::Finish { outcome: Err(f) }
            && f.code() != 0,
{
}

/// Whether two characters are the same but for the case of the letters A to Z.
pub open spec fn same_letter(a: char, b: char) -> bool {
    ||| a == b
    ||| 'A' <= a <= 'Z' && b as int == a as int + 32
    ||| 'A' <= b <= 'Z' && a as int == b as int + 32
}

/// Two names are taken for one if and only if they are the same, character by
/// character, but for the case of the letters A to Z.
pub proof fn law_names_differ_by_more_than_case(a: Seq<char>, b: Seq<char>)
    ensures
        same_name(a, b) <==> a.len() == b.len() && forall|i: int|
            0 <= i < a.len() ==> same_letter(#[trigger] a[i], b[i]),
{
    if same_name(a, b) {
        assert forall|i: int| 0 <= i < a.len() implies same_letter(#[trigger] a[i], b[i]) by {
            assert(folded(a[i]) == folded(b[i]));
            lemma_folded(a[i]);
            lemma_folded(b[i]);
        }
    }
    if a.len() == b.len() && forall|i: int|
        0 <= i < a.len() ==> same_letter(#[trigger] a[i], b[i]) {
        assert forall|i: int| 0 <= i < a.len() implies folded(#[trigger] a[i]) == folded(b[i]) by {
            assert(same_letter(a[i], b[i]));
            lemma_folded(a[i]);
            lemma_folded(b[i]);
        }
    }
}

proof fn lemma_folded(c: char)
    ensures
        'A' <= c <= 'Z' ==> folded(c) as int == c as int + 32,
{
    let n = (c as int) + 32;
    if 'A' <= c <= 'Z' {
        assert(97 <= n <= 122);
        assert(n as char as int == n);
    }
}

/// Whether a node declares the activity `name`, in whatever letter case.
pub open spec fn is_declaration_of(node: Head, name: Seq<char>) -> bool {
    node.0 == "activity"@ && (node.1 matches Some(Ok(other)) && same_name(other, name))
}

/// Whether a text holds a character beyond ASCII.
pub open spec fn is_beyond_ascii(s: Seq<char>) -> bool {
    exists|i: int| 0 <= i < s.len() && #[trigger] s[i] as int >= 128
}

/// Whether a node declares an activity of which it cannot be told for sure that it
/// is another one than `name`: one of the names goes beyond ASCII.
pub open spec fn is_in_doubt(name: Seq<char>) -> spec_fn(Head) -> bool {
    |node: Head|
        node.0 == "activity"@ && (node.1 matches Some(Ok(other)) && !same_name(other, name) && (
        is_beyond_ascii(name) || is_beyond_ascii(other)))
}

/// Whether a node is to declare an activity but gives no name.
pub open spec fn is_nameless(node: Head) -> bool {
    node.0 == "activity"@ && (node.1 matches Some(Err(_)))
}

/// Saving looks at the nodes of the config file in order. The first that declares
/// the name ends the subcommand with success, with nothing written; the first that
/// is to declare an activity without a name ends it with a failure, with nothing
/// written. Where there is neither, the file is written, and what stood in it is
/// kept. A file that is not there counts as an empty one; any other trouble with it
/// is a failure.
pub proof fn law_save_decides(
    name: String,
    file: ConfigFile,
    nodes: Seq<Head>,
    body: Seq<char>,
    tail: Seq<char>,
    existing: Seq<char>,
    at: int,
)
    requires
        match file.text {
            Ok(text) => existing == text@,
            Err(io) => io.kind == IoKind::NotFound && existing.len() == 0,
        },
        read_config(existing) == Ok::<Parsed, Seq<char>>((nodes, body, tail)),
        0 <= at <= nodes.len(),
        forall|i: int|
            0 <= i < at ==> !is_declaration_of(#[trigger] nodes[i], name@) && !is_nameless(nodes[i]),
        at < nodes.len() ==> is_declaration_of(nodes[at], name@) || is_nameless(nodes[at]),
    ensures
        ({
            let p = after_reading(name, Ok(file));
            let doubts = nodes.take(at).filter(is_in_doubt(name@)).len();
            &&& p.notes.len() == (if at < nodes.len() && is_declaration_of(nodes[at], name@) {
                doubts + 1
            } else {
                doubts
            })
            &&& forall|i: int| 0 <= i < doubts ==> #[trigger] p.notes[i] == ASCII_ONLY@
            &&& if at == nodes.len() {
                p.step matches StepView::WriteConfig {
                    content,
                    then: AfterConfigWritten::Save { path },
                } && path == file.path && (trimmed(existing).len() > 0 ==> only_adds(
                    content,
                    existing,
                    name@,
                ))
            } else if is_declaration_of(nodes[at], name@) {
                p.step matches StepView::Finish { outcome: Ok(_) } && p.notes.last()
                    == "jiji-activities: activity \""@ + name@
                    + "\" is already declared in config; nothing to write"@
            } else {
                p.step matches StepView::Finish { outcome: Err(f) } && f.code() == 73 && f.cause
                    == CauseView::Typed(
                    CliErrorView::ConfigEdit(
                        IoFailureView {
                            kind: IoKind::InvalidData,
                            message: "niri config contains an `activity` node whose first entry is not a string (got "@
                                + nodes[at].1->0->Err_0
                                + "); repair the config file before running `save`"@,
                        },
                    ),
                )
            }
        }),
{
    let p = settles(name@);
    assert forall|s: Seq<char>| #[trigger] is_beyond_ascii(s) == !is_ascii(s) by {
        if !is_ascii(s) {
            let i = choose|i: int| 0 <= i < s.len() && !((#[trigger] s[i] as int) < 128);
            assert(s[i] as int >= 128);
        }
    }
    assert forall|node: Head| #[trigger] is_in_doubt(name@)(node) == is_doubtful(name@)(node) by {}
    assert(is_in_doubt(name@) =~= is_doubtful(name@));
    assert(at == nodes.len() ==> nodes.take(at) =~= nodes);
    assert forall|i: int| 0 <= i < nodes.len() implies (p(#[trigger] nodes[i])
        <==> is_declaration_of(nodes[i], name@) || is_nameless(nodes[i])) by {}
    assert(existing.len() == 0 ==> existing =~= Seq::<char>::empty());
    if at < nodes.len() {
        assert forall|i: int| 0 <= i < at implies !p(#[trigger] nodes[i]) by {}
        lemma_first_is(nodes, p, at);
    } else {
        assert forall|i: int| 0 <= i < nodes.len() implies !p(#[trigger] nodes[i]) by {}
        lemma_first_none(nodes, p);
        if trimmed(existing).len() > 0 {
            law_save_only_adds(nodes, body, tail, existing, name@);
        }
    }
}

/// A config file that cannot be read, or that is no document, is not touched.
pub proof fn law_save_leaves_a_broken_file(name: String, file: ConfigFile, error: CliError)
    requires
        match file.text {
            Ok(text) => read_config(text@) is Err,
            Err(io) => io.kind != IoKind::NotFound,
        },
    ensures
        after_reading(name, Ok(file)).step matches StepView::Finish { outcome: Err(f) } && f.code()
            == 73 && f.cause == CauseView::Typed(
            CliErrorView::ConfigEdit(
                match file.text {
                    Ok(text) => IoFailureView {
                        kind: IoKind::InvalidData,
                        message: "niri config is not valid KDL: "@ + read_config(text@)->Err_0,
                    },
                    Err(io) => io@,
                },
            ),
        ),
        after_reading(name, Err(error)).step matches StepView::Finish { outcome: Err(f) } && f.cause
            == CauseView::Typed(error@),
{
}

/// A blank name is a mistake on the command line; with any other the config file is
/// read. Once that was written the compositor is asked to load the file that it
/// uses, and the confirmation ends the subcommand with success.
pub proof fn law_save_begins_and_ends(name: String, path: String, shown: Seq<char>)
    ensures
        (forall|i: int| 0 <= i < name@.len() ==> is_white_space(#[trigger] name@[i])) <==> (
        saving(name).step matches StepView::Finish { outcome: Err(f) } && f.code() == 64),
        (exists|i: int| 0 <= i < name@.len() && !is_white_space(#[trigger] name@[i])) <==> (
        saving(name).step matches StepView::ReadConfig {
            then: AfterConfigRead::Save { name: kept },
        } && kept == name),
        after_writing(path, Ok(())).step matches StepView::Send {
            request: RequestView::Action(ActionView::LoadConfigFile { path: None }),
            then: AfterReply::Reloaded { path: kept },
        } && kept == path,
        after_reload(path@, Ok(Response::Handled), shown).step matches StepView::Finish {
            outcome: Ok(_),
        },
        written_breadcrumb(path@) == "jiji-activities: note: activity was written to "@ + path@
            + "; run `niri msg action load-config-file` to reload manually"@,
{
    lemma_blank(name@);
}

/// A file in a directory has a path that begins with that of the directory and ends
/// with the name of the file, with a slash between them, unless the directory has
/// no name or ends with a slash itself.
pub proof fn law_path_of_a_file(dir: Seq<u8>, file_name: Seq<u8>)
    ensures
        ({
            let path = path_in(dir, file_name);
            let n = if dir.len() == 0 || dir.last() == 0x2f {
                dir.len()
            } else {
                dir.len() + 1
            };
            &&& path.len() == n + file_name.len()
            &&& path.take(dir.len() as int) == dir
            &&& path.skip(n as int) == file_name
            &&& n > dir.len() ==> path[dir.len() as int] == 0x2f
        }),
{
    let path = path_in(dir, file_name);
    let n = if dir.len() == 0 || dir.last() == 0x2f {
        dir.len()
    } else {
        dir.len() + 1
    };
    assert(path.take(dir.len() as int) =~= dir);
    assert(path.skip(n as int) =~= file_name);
}

/// The file that is written first stands beside the one that it is to replace: its
/// path is that of the other with something behind it.
pub proof fn law_written_first_beside_the_file(
    file_name: Vec<u8>,
    dir: Vec<u8>,
    shown: Seq<char>,
)
    ensures
        tmp_path(Some(file_name), Some(dir), shown) == Ok::<Seq<u8>, CliErrorView>(
            path_in(dir@, file_name@) + vstd::utf8::encode_utf8(".jiji-activities.tmp"@),
        ),
        tmp_path(Some(file_name), None, shown) == Ok::<Seq<u8>, CliErrorView>(
            file_name@ + vstd::utf8::encode_utf8(".jiji-activities.tmp"@),
        ),
        tmp_path(None, Some(dir), shown) matches Err(e) && e.code() == 73,
        tmp_path(None, Some(dir), shown) == Err::<Seq<u8>, CliErrorView>(
            CliErrorView::ConfigEdit(
                IoFailureView {
                    kind: IoKind::InvalidInput,
                    message: "config path has no filename component: "@ + shown,
                },
            ),
        ),
        no_parent(shown) == CliErrorView::ConfigEdit(
            IoFailureView {
                kind: IoKind::InvalidInput,
                message: "config path has no parent directory: "@ + shown,
            },
        ),
{
    let suffix = vstd::utf8::encode_utf8(".jiji-activities.tmp"@);
    assert(path_in(dir@, file_name@ + suffix) =~= path_in(dir@, file_name@) + suffix);
}

/// The config file is where the environment says, if it says anything; else it is
/// in the user's config directory. Without either there is none.
pub proof fn law_config_file_is_found(path: Vec<u8>, dir: Vec<u8>)
    ensures
        path@.len() > 0 ==> config_path(Some(path), Some(dir)) == Ok::<Seq<u8>, CliErrorView>(path@)
            && config_path(Some(path), None) == Ok::<Seq<u8>, CliErrorView>(path@),
        path@.len() == 0 ==> config_path(Some(path), Some(dir)) == config_path(None, Some(dir)) && (
        config_path(Some(path), None) is Err),
        config_path(None, Some(dir)) == Ok::<Seq<u8>, CliErrorView>(
            path_in(dir@, vstd::utf8::encode_utf8("config.kdl"@)),
        ),
        config_path(None, None) matches Err(e) && e.code() == 73,
{
}

/// A file that could not be removed is told of, with its path and what was said of
/// it; that it was gone already is not.
pub proof fn law_leftover_is_told(tmp: Seq<char>, io: IoFailureView)
    ensures
        leftover(tmp, Ok(())) is None,
        leftover(tmp, Err(io)) is None <==> io.kind == IoKind::NotFound,
        leftover(tmp, Err(io)) matches Some(line) ==> crate::error::ends_with(
            line,
            tmp + ": "@ + io.message,
        ),
{
    match leftover(tmp, Err(io)) {
        Some(line) => {
            let detail = tmp + ": "@ + io.message;
            assert(line.skip(line.len() - detail.len()) =~= detail);
        },
        None => {},
    }
}

} // verus!
