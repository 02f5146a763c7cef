//! The config file as a document: reading it, looking at its top-level nodes
//! and putting a node behind them.
//!
//! The documents themselves are those of the `kdl` crate, which keeps comments
//! and spacing, but writes what stood between a node and the end of its line
//! behind the end of the line. This module names what the rest of the library
//! needs of them: the top-level nodes, and the text before and behind the place
//! where a new node goes.

use crate::config_scan::{is_spoiled, is_whole, lemma_name_run, lemma_parsable_extended,
    lemma_parsable_finished, parsable, piece_len, string_len};
use kdl::{KdlDocument, KdlEntry, KdlEntryFormat, KdlNode, KdlValue};
use vstd::prelude::*;
use vstd::string::*;

verus! {

/// A document of the `kdl` crate.
#[verifier::external_type_specification]
#[verifier::external_body]
pub struct ExKdlDocument(kdl::KdlDocument);

/// What counts of a top-level node: its name, and its first entry where it has
/// one. That entry is `Ok` with its characters where it is a string, and `Err`
/// with a description otherwise.
pub type Head = (Seq<char>, Option<Result<Seq<char>, Seq<char>>>);

/// What a parsed document holds: its top-level nodes, its text up to the end of
/// the last node, and its text behind that.
pub type Parsed = (Seq<Head>, Seq<char>, Seq<char>);

/// The top-level nodes of a document.
pub uninterp spec fn nodes_of(document: KdlDocument) -> Seq<Head>;

/// The text of a document up to the end of its last node.
pub uninterp spec fn body_of(document: KdlDocument) -> Seq<char>;

/// The text of a document behind its last node.
pub uninterp spec fn tail_of(document: KdlDocument) -> Seq<char>;

/// What `KdlDocument::parse_v1` makes of a text: a document, or a description
/// of what is wrong with the text.
pub uninterp spec fn parsed_v1(text: Seq<char>) -> Result<Parsed, Seq<char>>;

// ---- Declarations ----------------------------------------------------------

/// How a character is written between quotes.
pub open spec fn escape_of(c: char) -> Seq<char> {
    if c == '\\' || c == '"' {
        seq!['\\', c]
    } else if c == '\n' {
        seq!['\\', 'n']
    } else if c == '\r' {
        seq!['\\', 'r']
    } else if c == '\t' {
        seq!['\\', 't']
    } else {
        seq![c]
    }
}

/// How a text is written between quotes.
pub open spec fn escaped(s: Seq<char>) -> Seq<char>
    decreases s.len(),
{
    if s.len() == 0 {
        Seq::empty()
    } else {
        escaped(s.drop_last()) + escape_of(s.last())
    }
}

/// A text as a quoted string.
pub open spec fn quoted(s: Seq<char>) -> Seq<char> {
    seq!['"'] + escaped(s) + seq!['"']
}

/// `name` as a quoted string, never as a bare word: the compositor reads a bare
/// word as something other than a string.
pub fn quoted_string(name: &str) -> (r: String)
    ensures
        r@ == quoted(name@),
{
    let mut out = String::new();
    out.push('"');
    proof {
        assert(name@.take(0).len() == 0);
        assert(out@ =~= seq!['"'] + escaped(name@.take(0)));
    }
    for c in it: name.chars()
        invariant
            it.seq() == name@,
            out@ == seq!['"'] + escaped(name@.take(it.index() as int)),
    {
        let ghost before = out@;
        let ghost k = it.index() as int;
        if c == '\\' || c == '"' {
            out.push('\\');
            out.push(c);
        } else if c == '\n' {
            out.push('\\');
            out.push('n');
        } else if c == '\r' {
            out.push('\\');
            out.push('r');
        } else if c == '\t' {
            out.push('\\');
            out.push('t');
        } else {
            out.push(c);
        }
        proof {
            let next = name@.take(k + 1);
            assert(next.drop_last() =~= name@.take(k));
            assert(next.last() == c);
            assert(out@ =~= before + escape_of(c));
            assert(out@ =~= seq!['"'] + escaped(next));
        }
    }
    proof {
        assert(name@.take(name@.len() as int) =~= name@);
    }
    out.push('"');
    proof {
        assert(out@ =~= quoted(name@));
    }
    out
}

/// The name of the nodes that declare activities.
pub const ACTIVITY_NODE: &'static str = "activity";

/// What separates a node from its first entry.
pub const ENTRY_GAP: &'static str = " ";

/// The line that declares an activity.
pub open spec fn declaration(name: Seq<char>) -> Seq<char> {
    ACTIVITY_NODE@ + ENTRY_GAP@ + quoted(name) + "\n"@
}

/// The lines that declare activities, one after the other.
pub open spec fn declarations(names: Seq<Seq<char>>) -> Seq<char>
    decreases names.len(),
{
    if names.len() == 0 {
        Seq::empty()
    } else {
        declarations(names.drop_last()) + declaration(names.last())
    }
}

/// The node that declares an activity.
pub open spec fn declaring(name: Seq<char>) -> Head {
    (ACTIVITY_NODE@, Some(Ok(name)))
}

/// The nodes that declare activities.
pub open spec fn all_declaring(names: Seq<Seq<char>>) -> Seq<Head> {
    names.map_values(|name: Seq<char>| declaring(name))
}

/// Whether `text` declares the given activities, line by line, and holds nothing
/// else but perhaps a line feed before them.
pub open spec fn declares_only(text: Seq<char>, names: Seq<Seq<char>>) -> bool {
    names.len() > 0 && (text == declarations(names) || text == "\n"@ + declarations(names))
}

/// A text with an empty line behind it, and then a declaration.
pub open spec fn far_below(text: Seq<char>, name: Seq<char>) -> Seq<char> {
    text + "\n\n"@ + declaration(name)
}

// ---- Reading back ----------------------------------------------------------

/// What is wrong with a text that cannot be handed to the parser.
pub const RESERVED_ANNOTATION: &'static str = "a reserved word stands as a type annotation";

/// What is read from a text.
pub open spec fn read_text(text: Seq<char>) -> Result<Parsed, Seq<char>> {
    if parsable(text) {
        parsed_v1(text)
    } else {
        Err(RESERVED_ANNOTATION@)
    }
}

/// Whether a text gives the given nodes when it is read, and behind them the
/// declaration of `name`.
pub open spec fn reads_as(text: Seq<char>, nodes: Seq<Head>, name: Seq<char>) -> bool {
    match read_text(text) {
        Ok((again, _, _)) => again == nodes.push(declaring(name)),
        Err(_) => false,
    }
}

proof fn lemma_escape_scanned(c: char, rest: Seq<char>)
    ensures
        string_len(escape_of(c) + rest) == escape_of(c).len() + string_len(rest),
{
    let s = escape_of(c) + rest;
    if escape_of(c).len() == 2 {
        assert(s.skip(2) =~= rest);
    } else {
        assert(s.skip(1) =~= rest);
    }
}

proof fn lemma_escaped_scanned(name: Seq<char>, rest: Seq<char>)
    ensures
        string_len(escaped(name) + rest) == escaped(name).len() + string_len(rest),
    decreases name.len(),
{
    if name.len() == 0 {
        assert(escaped(name) + rest =~= rest);
    } else {
        let c = name.last();
        lemma_escape_scanned(c, rest);
        lemma_escaped_scanned(name.drop_last(), escape_of(c) + rest);
        assert(escaped(name) + rest =~= escaped(name.drop_last()) + (escape_of(c) + rest));
    }
}

/// A declaration falls into a name, a blank, a string and a line feed, whatever
/// follows it.
proof fn lemma_declaration_scanned(name: Seq<char>, rest: Seq<char>)
    ensures
        parsable(declaration(name) + rest) == parsable(rest),
{
    lemma_declaration_pieces(name, rest);
    reveal_with_fuel(is_spoiled, 5);
    let q = quoted(name).len() as int;
    let s = declaration(name) + rest;
    assert(s.skip(8).skip(1) =~= s.skip(9));
    assert(s.skip(9).skip(q) =~= s.skip(9 + q));
    assert(s.skip(9 + q).skip(1) =~= rest);
}

proof fn lemma_declaration_pieces(name: Seq<char>, rest: Seq<char>)
    ensures
        ({
            let s = declaration(name) + rest;
            let q = quoted(name).len() as int;
            &&& q >= 2
            &&& declaration(name).len() == 10 + q
            &&& s[0] == 'a' && s[8] == ' ' && s[9] == '"' && s[9 + q] == '\n'
            &&& piece_len(s) == 8
            &&& piece_len(s.skip(8)) == 1
            &&& piece_len(s.skip(9)) == q
            &&& piece_len(s.skip(9 + q)) == 1
        }),
{
    reveal_strlit("activity");
    reveal_strlit(" ");
    reveal_strlit("\n");
    let s = declaration(name) + rest;
    let q = quoted(name).len() as int;
    assert(ACTIVITY_NODE@.len() == 8 && ENTRY_GAP@.len() == 1);
    assert(s[0] == 'a' && s[1] == 'c' && s[2] == 't' && s[3] == 'i' && s[4] == 'v' && s[5] == 'i'
        && s[6] == 't' && s[7] == 'y' && s[8] == ' ');
    assert(s[9] == '"');
    lemma_name_run(s.skip(1), 7);
    let string = s.skip(9);
    assert(string.skip(1) =~= escaped(name) + (seq!['"', '\n'] + rest));
    lemma_escaped_scanned(name, seq!['"', '\n'] + rest);
    assert(string_len(seq!['"', '\n'] + rest) == 1);
    assert(s[9 + q] == '\n');
}

/// A text that can be parsed, and leaves nothing open, can be parsed with a
/// declaration below it.
pub proof fn lemma_far_below_parsable(text: Seq<char>, name: Seq<char>)
    requires
        parsable(text),
        is_whole(text),
    ensures
        parsable(far_below(text, name)),
{
    reveal_strlit("\n\n");
    let none = Seq::<char>::empty();
    let more = seq!['\n'] + declaration(name);
    lemma_declaration_scanned(name, none);
    assert(declaration(name) + none =~= declaration(name));
    assert(more.skip(1) =~= declaration(name));
    assert(piece_len(more) == 1);
    assert(parsable(more));
    lemma_parsable_finished(text);
    lemma_parsable_extended(text.push('\n'), more);
    assert(far_below(text, name) =~= text.push('\n') + more);
}

/// Lines that declare activities can be parsed.
pub proof fn lemma_declarations_parsable(names: Seq<Seq<char>>, rest: Seq<char>)
    requires
        parsable(rest),
    ensures
        parsable(declarations(names) + rest),
        parsable("\n"@ + (declarations(names) + rest)),
    decreases names.len(),
{
    reveal_strlit("\n");
    let all = declarations(names) + rest;
    if names.len() == 0 {
        assert(all =~= rest);
    } else {
        let line = declaration(names.last());
        lemma_declaration_scanned(names.last(), rest);
        lemma_declarations_parsable(names.drop_last(), line + rest);
        assert(all =~= declarations(names.drop_last()) + (line + rest));
    }
    assert(("\n"@ + all).skip(1) =~= all);
}

/// What a text between quotes stands for.
pub open spec fn unescaped(s: Seq<char>) -> Seq<char>
    decreases s.len(),
{
    if s.len() == 0 {
        s
    } else if s[0] == '\\' && s.len() >= 2 {
        let c = if s[1] == 'n' {
            '\n'
        } else if s[1] == 'r' {
            '\r'
        } else if s[1] == 't' {
            '\t'
        } else {
            s[1]
        };
        seq![c] + unescaped(s.skip(2))
    } else {
        seq![s[0]] + unescaped(s.skip(1))
    }
}

proof fn lemma_unescape_one(c: char, rest: Seq<char>)
    ensures
        unescaped(escape_of(c) + rest) == seq![c] + unescaped(rest),
{
    let s = escape_of(c) + rest;
    if escape_of(c).len() == 2 {
        assert(s.skip(2) =~= rest);
    } else {
        assert(s.skip(1) =~= rest);
    }
}

proof fn lemma_unescape(name: Seq<char>, rest: Seq<char>)
    ensures
        unescaped(escaped(name) + rest) == name + unescaped(rest),
    decreases name.len(),
{
    if name.len() == 0 {
        assert(escaped(name) + rest =~= rest);
        assert(name + unescaped(rest) =~= unescaped(rest));
    } else {
        let c = name.last();
        let head = name.drop_last();
        lemma_unescape_one(c, rest);
        lemma_unescape(head, escape_of(c) + rest);
        assert(escaped(name) + rest =~= escaped(head) + (escape_of(c) + rest));
        assert(head + (seq![c] + unescaped(rest)) =~= name + unescaped(rest));
    }
}

/// A name is written so that it can be read back, whatever it holds: what stands
/// between the quotes stands for the name, and no two names are written alike.
pub proof fn law_quoted_name_is_read_back(name: Seq<char>, other: Seq<char>)
    ensures
        quoted(name).len() >= 2,
        quoted(name)[0] == '"',
        quoted(name).last() == '"',
        unescaped(quoted(name).subrange(1, quoted(name).len() - 1)) == name,
        quoted(name) == quoted(other) ==> name == other,
        declaration(name) == declaration(other) ==> name == other,
{
    let none = Seq::<char>::empty();
    lemma_unescape(name, none);
    lemma_unescape(other, none);
    assert(escaped(name) + none =~= escaped(name));
    assert(escaped(other) + none =~= escaped(other));
    assert(name + unescaped(none) =~= name);
    assert(other + unescaped(none) =~= other);
    assert(quoted(name).subrange(1, quoted(name).len() - 1) =~= escaped(name));
    assert(quoted(other).subrange(1, quoted(other).len() - 1) =~= escaped(other));
    reveal_strlit("\n");
    let front = ACTIVITY_NODE@ + ENTRY_GAP@;
    let n = front.len() as int;
    assert(declaration(name).subrange(n, declaration(name).len() - 1) =~= quoted(name));
    assert(declaration(other).subrange(n, declaration(other).len() - 1) =~= quoted(other));
}

proof fn lemma_escaped_scans(name: Seq<char>, rest: Seq<char>)
    ensures
        string_len(escaped(name) + (seq!['"'] + rest)) == escaped(name).len() + 1,
{
    lemma_escaped_scanned(name, seq!['"'] + rest);
    assert((seq!['"'] + rest)[0] == '"');
}

/// A declaration is one line: the name of the node, a blank, the name in quotes and
/// a line feed, and the quote that ends the name is the first that no backslash
/// stands before.
pub proof fn law_declaration_is_one_line(name: Seq<char>, rest: Seq<char>)
    ensures
        declaration(name) == "activity "@ + quoted(name) + "\n"@,
        string_len(quoted(name).skip(1) + rest) == quoted(name).len() - 1,
        forall|i: int| 0 <= i < quoted(name).len() ==> #[trigger] quoted(name)[i] != '\n',
{
    reveal_strlit("activity");
    reveal_strlit("activity ");
    reveal_strlit(" ");
    assert("activity"@ + " "@ =~= "activity "@);
    lemma_escaped_scans(name, rest);
    assert(quoted(name).skip(1) + rest =~= escaped(name) + (seq!['"'] + rest));
    lemma_no_line_feed(name);
}

proof fn lemma_no_line_feed(name: Seq<char>)
    ensures
        forall|i: int| 0 <= i < escaped(name).len() ==> #[trigger] escaped(name)[i] != '\n',
    decreases name.len(),
{
    if name.len() > 0 {
        let head = name.drop_last();
        lemma_no_line_feed(head);
        assert forall|i: int| 0 <= i < escaped(name).len() implies #[trigger] escaped(name)[i]
            != '\n' by {
            if i < escaped(head).len() {
                assert(escaped(name)[i] == escaped(head)[i]);
            } else {
                assert(escaped(name)[i] == escape_of(name.last())[i - escaped(head).len()]);
            }
        }
    }
}

// ---- Documents -------------------------------------------------------------

/// `KdlDocument::new` makes a document without nodes and without text.
#[verifier::external_body]
pub(crate) fn new_document() -> (r: KdlDocument)
    ensures
        nodes_of(r) == Seq::<Head>::empty(),
        body_of(r) == Seq::<char>::empty(),
        tail_of(r) == Seq::<char>::empty(),
{
    KdlDocument::new()
}

/// `KdlDocument::parse_v1` reads a document, or describes (by `Debug` of its
/// error) why it cannot. What it makes of a text depends on the text alone.
///
/// Of a text that declares activities line by line, with quoted names, it makes
/// one node for each line, in order, with the name as the first entry, and what
/// it has read is written back as it was.
///
/// A text that it can read leaves no string and no comment open, and with an
/// empty line and a declaration behind it gives the same nodes and the
/// declaration: the nodes are taken one after the other, the first line feed may
/// end a comment or belong to a line that a backslash continues, and the second
/// ends the last node.
#[verifier::external_body]
pub(crate) fn parse_document(text: &str) -> (r: Result<KdlDocument, String>)
    requires
        parsable(text@),
    ensures
        match r {
            Ok(document) => parsed_v1(text@) == Ok::<Parsed, Seq<char>>(
                (nodes_of(document), body_of(document), tail_of(document)),
            ),
            Err(message) => parsed_v1(text@) == Err::<Parsed, Seq<char>>(message@),
        },
        forall|names: Seq<Seq<char>>| #[trigger]
            declares_only(text@, names) ==> (match r {
                Ok(document) => nodes_of(document) == all_declaring(names) && body_of(document)
                    == text@ && tail_of(document) == Seq::<char>::empty(),
                Err(_) => false,
            }),
        match r {
            Ok(document) => is_whole(text@) && forall|name: Seq<char>|
                parsed_v1(#[trigger] far_below(text@, name)) matches Ok((again, _, _)) && again
                    == nodes_of(document).push(declaring(name)),
            Err(_) => true,
        },
{
    KdlDocument::parse_v1(text).map_err(|e| format!("{e:?}"))
}

/// What counts of a top-level node, as a value.
pub type HeadText = (String, Option<Result<String, String>>);

/// What a [`HeadText`] holds.
pub open spec fn head(h: HeadText) -> Head {
    (
        h.0@,
        match h.1 {
            Some(Ok(text)) => Some(Ok(text@)),
            Some(Err(description)) => Some(Err(description@)),
            None => None,
        },
    )
}

/// What a list of [`HeadText`] holds.
pub open spec fn heads(nodes: Seq<HeadText>) -> Seq<Head> {
    nodes.map_values(|h: HeadText| head(h))
}

/// `KdlDocument::nodes` hands out the top-level nodes in order. Of each it takes
/// the name (`KdlNode::name`) and the value of the first entry
/// (`KdlNode::entries`), described by its `Debug` form where it is no string.
#[verifier::external_body]
pub(crate) fn node_heads(document: &KdlDocument) -> (r: Vec<HeadText>)
    ensures
        heads(r@) == nodes_of(*document),
{
    document.nodes().iter().map(|node| (
        node.name().value().to_owned(),
        node.entries().first().map(|entry| match entry.value() {
            KdlValue::String(text) => Ok(text.clone()),
            other => Err(format!("{other:?}")),
        }),
    )).collect()
}

/// Whether the `kdl` crate writes a node's name as it is, without quotes: for
/// lower-case letters that make up no reserved word.
pub open spec fn is_bare_word(name: Seq<char>) -> bool {
    &&& name.len() > 0
    &&& forall|i: int| 0 <= i < name.len() ==> 'a' <= #[trigger] name[i] <= 'z'
    &&& name != "true"@ && name != "false"@ && name != "null"@ && name != "inf"@ && name != "nan"@
}

/// Puts a node with one string entry behind the last node of a document, by
/// `KdlDocument::nodes_mut`. `KdlNode::new` gives the node a line feed at its
/// end; `leading` comes before its name, and the entry is written as
/// `entry_leading` and `value_repr`, whatever its value.
#[verifier::external_body]
pub(crate) fn push_node(
    document: &mut KdlDocument,
    leading: &str,
    name: &str,
    entry_leading: &str,
    value: &str,
    value_repr: &str,
)
    requires
        is_bare_word(name@),
    ensures
        nodes_of(*final(document)) == nodes_of(*old(document)).push(
            (name@, Some(Ok::<Seq<char>, Seq<char>>(value@))),
        ),
        body_of(*final(document)) == body_of(*old(document)) + leading@ + name@ + entry_leading@
            + value_repr@ + "\n"@,
        tail_of(*final(document)) == tail_of(*old(document)),
{
    let mut entry = KdlEntry::new(KdlValue::String(value.to_owned()));
    entry.set_format(KdlEntryFormat {
        value_repr: value_repr.to_owned(),
        leading: entry_leading.to_owned(),
        ..Default::default()
    });
    let mut node = KdlNode::new(name);
    node.entries_mut().push(entry);
    if let Some(format) = node.format_mut() {
        format.leading = leading.to_owned();
    }
    document.nodes_mut().push(node);
}

/// `KdlDocument::format` gives, among other things, the text behind the last node;
/// a document without it has none.
#[verifier::external_body]
pub(crate) fn document_tail(document: &KdlDocument) -> (r: String)
    ensures
        r@ == tail_of(*document),
{
    document.format().map(|format| format.trailing.clone()).unwrap_or_default()
}

/// `KdlDocument::to_string` writes the text of a document: its nodes, then what
/// stands behind them.
#[verifier::external_body]
pub(crate) fn document_text(document: &KdlDocument) -> (r: String)
    ensures
        r@ == body_of(*document) + tail_of(*document),
{
    document.to_string()
}

} // verus!
