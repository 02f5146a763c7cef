//! The pieces that the text of a config file falls into: names, strings,
//! comments and single characters.
//!
//! What is asked of them is little: whether a text can be handed to the parser
//! of config files, and whether a new line can be put behind it.

use crate::text::is_white_space;
use vstd::prelude::*;
use vstd::string::*;

verus! {

// ---- Characters ------------------------------------------------------------

/// Whether a character ends a line.
pub open spec fn is_line_end(c: char) -> bool {
    c == '\n' || c == '\r' || c == '\u{0085}' || c == '\u{000C}' || c == '\u{2028}' || c
        == '\u{2029}'
}

/// Whether a character is a blank.
pub open spec fn is_blank(c: char) -> bool {
    c == ' ' || c == '\t' || c == '\u{FEFF}' || c == '\u{00A0}' || c == '\u{1680}' || '\u{2000}'
        <= c <= '\u{200A}' || c == '\u{202F}' || c == '\u{205F}' || c == '\u{3000}'
}

/// Whether a character stands for itself wherever it is not within a string or
/// a comment.
pub open spec fn is_punctuation(c: char) -> bool {
    c == '\\' || c == '/' || c == '(' || c == ')' || c == '{' || c == '}' || c == '<' || c == '>'
        || c == ';' || c == '[' || c == ']' || c == '=' || c == ',' || c == '"'
}

/// Whether a character can be part of a name that is not in quotes.
pub open spec fn is_name_char(c: char) -> bool {
    c as int >= 0x20 && !is_punctuation(c) && !is_line_end(c) && !is_blank(c)
}

fn ends_a_line(c: char) -> (r: bool)
    ensures
        r == is_line_end(c),
{
    c == '\n' || c == '\r' || c == '\u{0085}' || c == '\u{000C}' || c == '\u{2028}' || c
        == '\u{2029}'
}

fn can_be_in_name(c: char) -> (r: bool)
    ensures
        r == is_name_char(c),
{
    let blank = c == ' ' || c == '\t' || c == '\u{FEFF}' || c == '\u{00A0}' || c == '\u{1680}' || (
    '\u{2000}' <= c && c <= '\u{200A}') || c == '\u{202F}' || c == '\u{205F}' || c == '\u{3000}';
    let punctuation = c == '\\' || c == '/' || c == '(' || c == ')' || c == '{' || c == '}' || c
        == '<' || c == '>' || c == ';' || c == '[' || c == ']' || c == '=' || c == ',' || c == '"';
    c as u32 >= 0x20 && !punctuation && !ends_a_line(c) && !blank
}

// ---- Pieces ----------------------------------------------------------------

/// Whether a text begins with two characters.
pub open spec fn begins_with(s: Seq<char>, a: char, b: char) -> bool {
    s.len() >= 2 && s[0] == a && s[1] == b
}

/// How much of a text is left of its first line.
pub open spec fn line_len(s: Seq<char>) -> nat
    decreases s.len(),
{
    if s.len() == 0 || is_line_end(s[0]) {
        0
    } else {
        1 + line_len(s.skip(1))
    }
}

/// How much of a text is left of the comment that it begins within. Comments
/// nest; `depth` of them are open.
pub open spec fn block_len(s: Seq<char>, depth: nat) -> nat
    decreases s.len(),
{
    if s.len() == 0 {
        0
    } else if begins_with(s, '*', '/') {
        if depth <= 1 {
            2
        } else {
            2 + block_len(s.skip(2), (depth - 1) as nat)
        }
    } else if begins_with(s, '/', '*') {
        2 + block_len(s.skip(2), depth + 1)
    } else {
        1 + block_len(s.skip(1), depth)
    }
}

/// How much of a text is left of the string that it begins within.
pub open spec fn string_len(s: Seq<char>) -> nat
    decreases s.len(),
{
    if s.len() == 0 {
        0
    } else if s[0] == '"' {
        1
    } else if s[0] == '\\' && s.len() >= 2 {
        2 + string_len(s.skip(2))
    } else {
        1 + string_len(s.skip(1))
    }
}

/// How many hash signs a text begins with.
pub open spec fn hash_len(s: Seq<char>) -> nat
    decreases s.len(),
{
    if s.len() == 0 || s[0] != '#' {
        0
    } else {
        1 + hash_len(s.skip(1))
    }
}

/// Whether a raw string begins the text: an `r`, hash signs and a quote.
pub open spec fn begins_raw(s: Seq<char>) -> bool {
    &&& s.len() > 0
    &&& s[0] == 'r'
    &&& s.len() >= 2 + hash_len(s.skip(1))
    &&& s[1 + hash_len(s.skip(1)) as int] == '"'
}

/// How much of a text is left of the raw string that it begins within, which
/// ends with a quote and `hashes` hash signs.
pub open spec fn raw_len(s: Seq<char>, hashes: nat) -> nat
    decreases s.len(),
{
    if s.len() == 0 {
        0
    } else if s[0] == '"' && hash_len(s.skip(1)) >= hashes {
        1 + hashes
    } else {
        1 + raw_len(s.skip(1), hashes)
    }
}

/// How many characters of a name a text begins with.
pub open spec fn name_len(s: Seq<char>) -> nat
    decreases s.len(),
{
    if s.len() == 0 || !is_name_char(s[0]) {
        0
    } else {
        1 + name_len(s.skip(1))
    }
}

/// The length of the first piece of a text: a comment, the mark that leaves out
/// what follows it, a string, a name, or a single character.
pub open spec fn piece_len(s: Seq<char>) -> nat {
    if begins_with(s, '/', '/') {
        2 + line_len(s.skip(2))
    } else if begins_with(s, '/', '*') {
        2 + block_len(s.skip(2), 1)
    } else if begins_with(s, '/', '-') {
        2
    } else if s.len() > 0 && s[0] == '"' {
        1 + string_len(s.skip(1))
    } else if begins_raw(s) {
        2 + hash_len(s.skip(1)) + raw_len(
            s.skip(2 + hash_len(s.skip(1)) as int),
            hash_len(s.skip(1)),
        )
    } else if s.len() > 0 && is_name_char(s[0]) {
        1 + name_len(s.skip(1))
    } else {
        1
    }
}

proof fn lemma_line_len(s: Seq<char>)
    ensures
        line_len(s) <= s.len(),
    decreases s.len(),
{
    if s.len() > 0 && !is_line_end(s[0]) {
        lemma_line_len(s.skip(1));
    }
}

proof fn lemma_block_len(s: Seq<char>, depth: nat)
    ensures
        block_len(s, depth) <= s.len(),
    decreases s.len(),
{
    if s.len() == 0 {
    } else if begins_with(s, '*', '/') {
        if depth > 1 {
            lemma_block_len(s.skip(2), (depth - 1) as nat);
        }
    } else if begins_with(s, '/', '*') {
        lemma_block_len(s.skip(2), depth + 1);
    } else {
        lemma_block_len(s.skip(1), depth);
    }
}

proof fn lemma_string_len(s: Seq<char>)
    ensures
        string_len(s) <= s.len(),
    decreases s.len(),
{
    if s.len() == 0 || s[0] == '"' {
    } else if s[0] == '\\' && s.len() >= 2 {
        lemma_string_len(s.skip(2));
    } else {
        lemma_string_len(s.skip(1));
    }
}

proof fn lemma_hash_len(s: Seq<char>)
    ensures
        hash_len(s) <= s.len(),
        hash_len(s) < s.len() ==> s[hash_len(s) as int] != '#',
        forall|i: int| 0 <= i < hash_len(s) ==> s[i] == '#',
    decreases s.len(),
{
    if s.len() > 0 && s[0] == '#' {
        let rest = s.skip(1);
        lemma_hash_len(rest);
        assert forall|i: int| 0 <= i < hash_len(s) implies s[i] == '#' by {
            if i > 0 {
                assert(rest[i - 1] == s[i]);
            }
        }
    }
}

proof fn lemma_raw_len(s: Seq<char>, hashes: nat)
    ensures
        raw_len(s, hashes) <= s.len(),
    decreases s.len(),
{
    if s.len() == 0 {
    } else if s[0] == '"' && hash_len(s.skip(1)) >= hashes {
        lemma_hash_len(s.skip(1));
    } else {
        lemma_raw_len(s.skip(1), hashes);
    }
}

proof fn lemma_name_len(s: Seq<char>)
    ensures
        name_len(s) <= s.len(),
    decreases s.len(),
{
    if s.len() > 0 && is_name_char(s[0]) {
        lemma_name_len(s.skip(1));
    }
}

/// A piece is never empty, nor longer than the text.
pub proof fn lemma_piece_len(s: Seq<char>)
    requires
        s.len() > 0,
    ensures
        0 < piece_len(s) <= s.len(),
{
    if begins_with(s, '/', '/') {
        lemma_line_len(s.skip(2));
    } else if begins_with(s, '/', '*') {
        lemma_block_len(s.skip(2), 1);
    } else if begins_with(s, '/', '-') {
    } else if s[0] == '"' {
        lemma_string_len(s.skip(1));
    } else if begins_raw(s) {
        let hashes = hash_len(s.skip(1));
        lemma_raw_len(s.skip(2 + hashes as int), hashes);
    } else if is_name_char(s[0]) {
        lemma_name_len(s.skip(1));
    }
}

// ---- Finding the pieces ----------------------------------------------------

proof fn lemma_skip_one(chars: Seq<char>, at: int)
    requires
        0 <= at < chars.len(),
    ensures
        chars.skip(at)[0] == chars[at],
        chars.skip(at).skip(1) == chars.skip(at + 1),
        chars.skip(at).len() == chars.len() - at,
{
    assert(chars.skip(at).skip(1) =~= chars.skip(at + 1));
}

proof fn lemma_skip_two(chars: Seq<char>, at: int)
    requires
        0 <= at,
        at + 1 < chars.len(),
    ensures
        chars.skip(at)[0] == chars[at],
        chars.skip(at)[1] == chars[at + 1],
        chars.skip(at).skip(2) == chars.skip(at + 2),
        chars.skip(at).len() == chars.len() - at,
{
    assert(chars.skip(at).skip(2) =~= chars.skip(at + 2));
}

fn is_pair(chars: &Vec<char>, at: usize, a: char, b: char) -> (r: bool)
    requires
        at < chars@.len(),
    ensures
        r == begins_with(chars@.skip(at as int), a, b),
{
    proof {
        lemma_skip_one(chars@, at as int);
    }
    chars.len() - at >= 2 && chars[at] == a && chars[at + 1] == b
}

fn line_end(chars: &Vec<char>, start: usize) -> (r: usize)
    requires
        start <= chars@.len(),
    ensures
        r == start + line_len(chars@.skip(start as int)),
        r <= chars@.len(),
{
    let mut at: usize = start;
    while at < chars.len() && !ends_a_line(chars[at])
        invariant
            start <= at <= chars@.len(),
            start + line_len(chars@.skip(start as int)) == at + line_len(chars@.skip(at as int)),
        decreases chars@.len() - at,
    {
        proof {
            lemma_skip_one(chars@, at as int);
        }
        at = at + 1;
    }
    proof {
        if at < chars@.len() {
            lemma_skip_one(chars@, at as int);
        }
    }
    at
}

fn block_end(chars: &Vec<char>, start: usize) -> (r: usize)
    requires
        start <= chars@.len(),
    ensures
        r == start + block_len(chars@.skip(start as int), 1),
        r <= chars@.len(),
{
    let mut at: usize = start;
    let mut depth: usize = 1;
    while at < chars.len()
        invariant
            start <= at <= chars@.len(),
            1 <= depth <= at - start + 1,
            start + block_len(chars@.skip(start as int), 1) == at + block_len(
                chars@.skip(at as int),
                depth as nat,
            ),
        decreases chars@.len() - at,
    {
        proof {
            lemma_skip_one(chars@, at as int);
            if at + 1 < chars@.len() {
                lemma_skip_two(chars@, at as int);
            }
        }
        if is_pair(chars, at, '*', '/') {
            if depth == 1 {
                return at + 2;
            }
            depth = depth - 1;
            at = at + 2;
        } else if is_pair(chars, at, '/', '*') {
            depth = depth + 1;
            at = at + 2;
        } else {
            at = at + 1;
        }
    }
    at
}

fn string_end(chars: &Vec<char>, start: usize) -> (r: usize)
    requires
        start <= chars@.len(),
    ensures
        r == start + string_len(chars@.skip(start as int)),
        r <= chars@.len(),
{
    let mut at: usize = start;
    while at < chars.len()
        invariant
            start <= at <= chars@.len(),
            start + string_len(chars@.skip(start as int)) == at + string_len(
                chars@.skip(at as int),
            ),
        decreases chars@.len() - at,
    {
        proof {
            lemma_skip_one(chars@, at as int);
            if at + 1 < chars@.len() {
                lemma_skip_two(chars@, at as int);
            }
        }
        if chars[at] == '"' {
            return at + 1;
        }
        if chars[at] == '\\' && chars.len() - at >= 2 {
            at = at + 2;
        } else {
            at = at + 1;
        }
    }
    at
}

fn count_hashes(chars: &Vec<char>, start: usize) -> (r: usize)
    requires
        start <= chars@.len(),
    ensures
        r == hash_len(chars@.skip(start as int)),
        start + r <= chars@.len(),
{
    let mut at: usize = start;
    while at < chars.len() && chars[at] == '#'
        invariant
            start <= at <= chars@.len(),
            hash_len(chars@.skip(start as int)) == at - start + hash_len(chars@.skip(at as int)),
        decreases chars@.len() - at,
    {
        proof {
            lemma_skip_one(chars@, at as int);
        }
        at = at + 1;
    }
    proof {
        if at < chars@.len() {
            lemma_skip_one(chars@, at as int);
        }
    }
    at - start
}

fn raw_end(chars: &Vec<char>, start: usize, hashes: usize) -> (r: usize)
    requires
        start <= chars@.len(),
    ensures
        r == start + raw_len(chars@.skip(start as int), hashes as nat),
        r <= chars@.len(),
{
    let mut at: usize = start;
    while at < chars.len()
        invariant
            start <= at <= chars@.len(),
            start + raw_len(chars@.skip(start as int), hashes as nat) == at + raw_len(
                chars@.skip(at as int),
                hashes as nat,
            ),
        decreases chars@.len() - at,
    {
        proof {
            lemma_skip_one(chars@, at as int);
            lemma_hash_len(chars@.skip(at + 1));
        }
        if chars[at] == '"' && count_hashes(chars, at + 1) >= hashes {
            return at + 1 + hashes;
        }
        at = at + 1;
    }
    at
}

fn name_end(chars: &Vec<char>, start: usize) -> (r: usize)
    requires
        start <= chars@.len(),
    ensures
        r == start + name_len(chars@.skip(start as int)),
        r <= chars@.len(),
{
    let mut at: usize = start;
    while at < chars.len() && can_be_in_name(chars[at])
        invariant
            start <= at <= chars@.len(),
            start + name_len(chars@.skip(start as int)) == at + name_len(chars@.skip(at as int)),
        decreases chars@.len() - at,
    {
        proof {
            lemma_skip_one(chars@, at as int);
        }
        at = at + 1;
    }
    proof {
        if at < chars@.len() {
            lemma_skip_one(chars@, at as int);
        }
    }
    at
}

/// Where the piece at `at` ends.
fn piece_end(chars: &Vec<char>, at: usize) -> (r: usize)
    requires
        at < chars@.len(),
    ensures
        r == at + piece_len(chars@.skip(at as int)),
        at < r <= chars@.len(),
{
    let len: usize = chars.len();
    let ghost s = chars@.skip(at as int);
    proof {
        lemma_skip_one(chars@, at as int);
        if at + 1 < chars@.len() {
            lemma_skip_two(chars@, at as int);
        }
        lemma_piece_len(s);
        lemma_hash_len(s.skip(1));
    }
    if is_pair(chars, at, '/', '/') {
        return line_end(chars, at + 2);
    }
    if is_pair(chars, at, '/', '*') {
        return block_end(chars, at + 2);
    }
    if is_pair(chars, at, '/', '-') {
        return at + 2;
    }
    if chars[at] == '"' {
        return string_end(chars, at + 1);
    }
    if chars[at] == 'r' {
        let hashes: usize = count_hashes(chars, at + 1);
        let rest: usize = len - (at + 1) - hashes;
        if rest > 0 && chars[at + 1 + hashes] == '"' {
            proof {
                assert(s[1 + hashes as int] == chars@[at + 1 + hashes]);
                assert(begins_raw(s));
                assert(s.skip(2 + hashes as int) =~= chars@.skip(at + 2 + hashes));
            }
            return raw_end(chars, at + 2 + hashes, hashes);
        }
        proof {
            if begins_raw(s) {
                assert(s[1 + hashes as int] == chars@[at + 1 + hashes]);
            }
        }
    }
    if can_be_in_name(chars[at]) {
        return name_end(chars, at + 1);
    }
    at + 1
}

// ---- Which texts can be parsed ---------------------------------------------

/// How many bytes a character takes in UTF-8.
pub open spec fn utf8_width(c: char) -> int {
    if (c as int) < 0x80 {
        1
    } else if (c as int) < 0x800 {
        2
    } else if (c as int) < 0x10000 {
        3
    } else {
        4
    }
}

/// Whether a cut behind the first `n` bytes falls within `s` and between two
/// characters.
pub open spec fn can_cut(s: Seq<char>, n: int) -> bool
    decreases s.len(),
{
    n == 0 || (n > 0 && s.len() > 0 && can_cut(s.skip(1), n - utf8_width(s[0])))
}

/// Whether a text begins with a type annotation that is the reserved word
/// `word`, and as many bytes as the word has cannot be cut off from what follows
/// the word. The parser panics where it reports such an annotation.
pub open spec fn is_spoiled_by(s: Seq<char>, word: Seq<char>) -> bool {
    let n = 1 + word.len() as int;
    &&& s.len() >= n
    &&& s[0] == '('
    &&& s.subrange(1, n) == word
    &&& s.len() == n || !is_name_char(s[n])
    &&& !can_cut(s.skip(n), word.len() as int)
}

/// Whether a text begins with an annotation on which the parser panics.
pub open spec fn begins_spoiled(s: Seq<char>) -> bool {
    is_spoiled_by(s, "true"@) || is_spoiled_by(s, "false"@) || is_spoiled_by(s, "null"@)
}

/// Whether one of the pieces of a text begins an annotation on which the parser
/// panics.
pub open spec fn is_spoiled(s: Seq<char>) -> bool
    decreases s.len(),
{
    if s.len() == 0 {
        false
    } else {
        proof {
            lemma_piece_len(s);
        }
        begins_spoiled(s) || is_spoiled(s.skip(piece_len(s) as int))
    }
}

/// Whether `text` can be handed to the parser of config files. Names, strings
/// and comments are told apart, so that only an annotation counts.
pub open spec fn parsable(text: Seq<char>) -> bool {
    !is_spoiled(text)
}

fn width(c: char) -> (r: usize)
    ensures
        r == utf8_width(c),
{
    let code = c as u32;
    if code < 0x80 {
        1
    } else if code < 0x800 {
        2
    } else if code < 0x10000 {
        3
    } else {
        4
    }
}

fn can_be_cut(chars: &Vec<char>, start: usize, n: usize) -> (r: bool)
    requires
        start <= chars@.len(),
    ensures
        r == can_cut(chars@.skip(start as int), n as int),
{
    let mut at: usize = start;
    let mut left: usize = n;
    while left > 0
        invariant
            start <= at <= chars@.len(),
            can_cut(chars@.skip(start as int), n as int) == can_cut(
                chars@.skip(at as int),
                left as int,
            ),
        decreases left,
    {
        if at >= chars.len() {
            return false;
        }
        let w: usize = width(chars[at]);
        proof {
            lemma_skip_one(chars@, at as int);
            if w > left {
                assert(!can_cut(chars@.skip(at + 1), left - w));
            }
        }
        if w > left {
            return false;
        }
        left = left - w;
        at = at + 1;
    }
    true
}

fn is_spoiled_at(chars: &Vec<char>, at: usize, word: &str) -> (r: bool)
    requires
        at < chars@.len(),
    ensures
        r == is_spoiled_by(chars@.skip(at as int), word@),
{
    let letters = crate::text::chars_of(word);
    let len: usize = chars.len();
    let ghost s = chars@.skip(at as int);
    let ghost n = 1 + word@.len() as int;
    if chars[at] != '(' || len - at - 1 < letters.len() {
        return false;
    }
    let mut i: usize = 0;
    while i < letters.len()
        invariant
            letters@ == word@,
            len == chars@.len(),
            at + 1 + letters@.len() <= len,
            i <= letters@.len(),
            s == chars@.skip(at as int),
            n == 1 + word@.len(),
            forall|j: int| 0 <= j < i ==> chars@[at + 1 + j] == word@[j],
        decreases letters@.len() - i,
    {
        if chars[at + 1 + i] != letters[i] {
            proof {
                assert(s.subrange(1, n)[i as int] == chars@[at + 1 + i]);
            }
            return false;
        }
        i = i + 1;
    }
    let next: usize = at + 1 + letters.len();
    proof {
        assert(s.subrange(1, n) =~= word@);
        assert(s.skip(n) =~= chars@.skip(next as int));
        if next < len {
            assert(s[n] == chars@[next as int]);
        }
    }
    if next < len && can_be_in_name(chars[next]) {
        return false;
    }
    !can_be_cut(chars, next, letters.len())
}

/// Whether `text` can be handed to the parser of config files.
pub fn can_be_parsed(text: &str) -> (r: bool)
    ensures
        r == parsable(text@),
{
    let chars = crate::text::chars_of(text);
    let mut at: usize = 0;
    proof {
        assert(chars@.skip(0) =~= text@);
    }
    while at < chars.len()
        invariant
            chars@ == text@,
            at <= chars@.len(),
            is_spoiled(text@) == is_spoiled(chars@.skip(at as int)),
        decreases chars@.len() - at,
    {
        if is_spoiled_at(&chars, at, "true") || is_spoiled_at(&chars, at, "false")
            || is_spoiled_at(&chars, at, "null") {
            return false;
        }
        let next: usize = piece_end(&chars, at);
        proof {
            let s = chars@.skip(at as int);
            assert(s.skip(piece_len(s) as int) =~= chars@.skip(next as int));
        }
        at = next;
    }
    true
}

// ---- Where a line can be added ---------------------------------------------

/// Whether the last piece of a text is a line feed.
pub open spec fn reaches_line_feed(s: Seq<char>) -> bool
    decreases s.len(),
{
    if s.len() == 0 {
        false
    } else if s.len() == 1 {
        s[0] == '\n'
    } else {
        proof {
            lemma_piece_len(s);
        }
        reaches_line_feed(s.skip(piece_len(s) as int))
    }
}

/// Whether a text leaves no string and no comment open: a line feed behind it
/// becomes a piece of its own.
pub open spec fn is_whole(text: Seq<char>) -> bool {
    reaches_line_feed(text.push('\n'))
}

proof fn lemma_line_extended(b: Seq<char>, more: Seq<char>)
    requires
        line_len(b) < b.len(),
    ensures
        line_len(b + more) == line_len(b),
    decreases b.len(),
{
    if !is_line_end(b[0]) {
        assert((b + more).skip(1) =~= b.skip(1) + more);
        lemma_line_extended(b.skip(1), more);
    }
}

proof fn lemma_block_extended(b: Seq<char>, more: Seq<char>, depth: nat)
    requires
        block_len(b, depth) < b.len(),
    ensures
        block_len(b + more, depth) == block_len(b, depth),
    decreases b.len(),
{
    if b.len() == 1 {
        assert(b.skip(1).len() == 0);
    } else {
        assert((b + more).skip(1) =~= b.skip(1) + more);
        assert((b + more).skip(2) =~= b.skip(2) + more);
        if begins_with(b, '*', '/') {
            if depth > 1 {
                lemma_block_extended(b.skip(2), more, (depth - 1) as nat);
            }
        } else if begins_with(b, '/', '*') {
            lemma_block_extended(b.skip(2), more, depth + 1);
        } else {
            lemma_block_extended(b.skip(1), more, depth);
        }
    }
}

proof fn lemma_string_extended(b: Seq<char>, more: Seq<char>)
    requires
        string_len(b) < b.len(),
    ensures
        string_len(b + more) == string_len(b),
    decreases b.len(),
{
    if b.len() == 1 {
        assert(b.skip(1).len() == 0);
    } else {
        assert((b + more).skip(1) =~= b.skip(1) + more);
        assert((b + more).skip(2) =~= b.skip(2) + more);
        if b[0] == '"' {
        } else if b[0] == '\\' {
            lemma_string_extended(b.skip(2), more);
        } else {
            lemma_string_extended(b.skip(1), more);
        }
    }
}

proof fn lemma_hash_extended(b: Seq<char>, more: Seq<char>)
    requires
        hash_len(b) < b.len(),
    ensures
        hash_len(b + more) == hash_len(b),
    decreases b.len(),
{
    if b[0] == '#' {
        assert((b + more).skip(1) =~= b.skip(1) + more);
        lemma_hash_extended(b.skip(1), more);
    }
}

/// Hash signs do not reach the end of a text that ends in a line feed.
proof fn lemma_hash_ends(b: Seq<char>)
    requires
        b.len() > 0,
        b.last() == '\n',
    ensures
        hash_len(b) < b.len(),
{
    lemma_hash_len(b);
}

proof fn lemma_raw_extended(b: Seq<char>, more: Seq<char>, hashes: nat)
    requires
        b.len() > 0,
        b.last() == '\n',
        raw_len(b, hashes) < b.len(),
    ensures
        raw_len(b + more, hashes) == raw_len(b, hashes),
    decreases b.len(),
{
    if b.len() == 1 {
        assert(b.skip(1).len() == 0);
    } else {
        assert((b + more).skip(1) =~= b.skip(1) + more);
        assert(b.skip(1).last() == '\n');
        lemma_hash_ends(b.skip(1));
        lemma_hash_extended(b.skip(1), more);
        if !(b[0] == '"' && hash_len(b.skip(1)) >= hashes) {
            lemma_raw_extended(b.skip(1), more, hashes);
        }
    }
}

proof fn lemma_name_extended(b: Seq<char>, more: Seq<char>)
    requires
        name_len(b) < b.len(),
    ensures
        name_len(b + more) == name_len(b),
    decreases b.len(),
{
    if is_name_char(b[0]) {
        assert((b + more).skip(1) =~= b.skip(1) + more);
        lemma_name_extended(b.skip(1), more);
    }
}

/// The first piece of a text that ends in a line feed stays the same, whatever
/// is put behind the text, unless it reaches up to the end.
proof fn lemma_piece_extended(b: Seq<char>, more: Seq<char>)
    requires
        b.len() > 0,
        b.last() == '\n',
        b.len() == 1 || piece_len(b) < b.len(),
    ensures
        piece_len(b + more) == piece_len(b),
        b.len() == 1 ==> piece_len(b) == 1,
{
    let s = b + more;
    if b.len() > 1 {
        assert(s.skip(1) =~= b.skip(1) + more);
        assert(s.skip(2) =~= b.skip(2) + more);
        assert(b.skip(1).last() == '\n');
        lemma_hash_ends(b.skip(1));
        lemma_hash_extended(b.skip(1), more);
        let hashes = hash_len(b.skip(1));
        if begins_with(b, '/', '/') {
            lemma_line_extended(b.skip(2), more);
        } else if begins_with(b, '/', '*') {
            lemma_block_extended(b.skip(2), more, 1);
        } else if begins_with(b, '/', '-') {
        } else if b[0] == '"' {
            lemma_string_extended(b.skip(1), more);
        } else if begins_raw(b) {
            let h = 2 + hashes as int;
            assert(begins_raw(s));
            assert(s.skip(h) =~= b.skip(h) + more);
            assert(b.skip(h).len() > 0);
            assert(b.skip(h).last() == '\n');
            lemma_raw_extended(b.skip(h), more, hashes);
        } else {
            if begins_raw(s) {
                assert(s[1 + hashes as int] == b[1 + hashes as int]);
            }
            if is_name_char(b[0]) {
                lemma_name_extended(b.skip(1), more);
            }
        }
    } else {
        assert(s[0] == '\n');
    }
}

/// Such a text ends in a line feed, and its first piece does not reach up to
/// the end.
proof fn lemma_reaches(b: Seq<char>)
    requires
        reaches_line_feed(b),
    ensures
        b.len() > 0,
        b.last() == '\n',
        b.len() == 1 || piece_len(b) < b.len(),
    decreases b.len(),
{
    if b.len() > 1 {
        lemma_piece_len(b);
        let rest = b.skip(piece_len(b) as int);
        lemma_reaches(rest);
        assert(rest.last() == b.last());
    }
}

proof fn lemma_cut_extended(p: Seq<char>, more: Seq<char>, n: int)
    requires
        can_cut(p, n),
    ensures
        can_cut(p + more, n),
    decreases p.len(),
{
    if n > 0 {
        assert((p + more).skip(1) =~= p.skip(1) + more);
        lemma_cut_extended(p.skip(1), more, n - utf8_width(p[0]));
    }
}

proof fn lemma_spoiled_extended(b: Seq<char>, more: Seq<char>, word: Seq<char>)
    requires
        b.len() > 0,
        b.last() == '\n',
        !word.contains('\n'),
        is_spoiled_by(b + more, word),
    ensures
        is_spoiled_by(b, word),
{
    let s = b + more;
    let n = 1 + word.len() as int;
    if b.len() <= n {
        let k = b.len() - 1;
        assert(s[k] == '\n');
        if k > 0 {
            assert(s.subrange(1, n)[k - 1] == '\n');
        }
    }
    assert(s.subrange(1, n) =~= b.subrange(1, n));
    assert(s.skip(n) =~= b.skip(n) + more);
    if can_cut(b.skip(n), word.len() as int) {
        lemma_cut_extended(b.skip(n), more, word.len() as int);
    }
}

/// A text can be put behind one that can be parsed and whose last piece is a line
/// feed, where it can be parsed for itself.
pub proof fn lemma_parsable_extended(b: Seq<char>, more: Seq<char>)
    requires
        reaches_line_feed(b),
        parsable(b),
        parsable(more),
    ensures
        parsable(b + more),
    decreases b.len(),
{
    reveal_strlit("true");
    reveal_strlit("false");
    reveal_strlit("null");
    lemma_reaches(b);
    lemma_piece_extended(b, more);
    lemma_piece_len(b);
    let n = piece_len(b) as int;
    assert((b + more).skip(n) =~= b.skip(n) + more);
    if begins_spoiled(b + more) {
        if is_spoiled_by(b + more, "true"@) {
            lemma_spoiled_extended(b, more, "true"@);
        } else if is_spoiled_by(b + more, "false"@) {
            lemma_spoiled_extended(b, more, "false"@);
        } else {
            lemma_spoiled_extended(b, more, "null"@);
        }
    }
    if b.len() == 1 {
        assert(b =~= seq!['\n']);
        assert(b.skip(n) + more =~= more);
    } else {
        lemma_parsable_extended(b.skip(n), more);
    }
}

/// What a line feed behind a text does to its first piece: nothing, unless the
/// piece reaches up to the end and takes it in.
proof fn lemma_piece_finished(s: Seq<char>)
    requires
        s.len() > 0,
    ensures
        piece_len(s.push('\n')) == piece_len(s) || (piece_len(s) == s.len() && piece_len(
            s.push('\n'),
        ) == s.len() + 1),
{
    let t = s.push('\n');
    assert(t.skip(1) =~= s.skip(1).push('\n'));
    lemma_hash_finished(s.skip(1));
    let hashes = hash_len(s.skip(1));
    lemma_hash_len(s.skip(1));
    if s.len() >= 2 {
        assert(t.skip(2) =~= s.skip(2).push('\n'));
    }
    if begins_with(s, '/', '/') {
        lemma_line_finished(s.skip(2));
    } else if begins_with(s, '/', '*') {
        lemma_block_finished(s.skip(2), 1);
    } else if begins_with(s, '/', '-') {
    } else if s[0] == '"' {
        lemma_string_finished(s.skip(1));
    } else if begins_raw(s) {
        let h = 2 + hashes as int;
        assert(t[1 + hashes as int] == '"');
        assert(t.skip(h) =~= s.skip(h).push('\n'));
        lemma_raw_finished(s.skip(h), hashes);
    } else {
        if begins_raw(t) {
            assert(t[1 + hashes as int] == (if 1 + hashes < s.len() {
                s[1 + hashes as int]
            } else {
                '\n'
            }));
        }
        if is_name_char(s[0]) {
            lemma_name_finished(s.skip(1));
        }
    }
}

proof fn lemma_line_finished(s: Seq<char>)
    ensures
        line_len(s.push('\n')) == line_len(s),
    decreases s.len(),
{
    if s.len() > 0 {
        assert(s.push('\n').skip(1) =~= s.skip(1).push('\n'));
        lemma_line_finished(s.skip(1));
    }
}

proof fn lemma_block_finished(s: Seq<char>, depth: nat)
    ensures
        block_len(s.push('\n'), depth) == block_len(s, depth) || (block_len(s, depth) == s.len()
            && block_len(s.push('\n'), depth) == s.len() + 1),
    decreases s.len(),
{
    let t = s.push('\n');
    if s.len() == 0 {
        assert(block_len(t.skip(1), depth) == 0);
    } else {
        assert(t.skip(1) =~= s.skip(1).push('\n'));
        if s.len() >= 2 {
            assert(t.skip(2) =~= s.skip(2).push('\n'));
        }
        if begins_with(s, '*', '/') {
            if depth > 1 {
                lemma_block_finished(s.skip(2), (depth - 1) as nat);
            }
        } else if begins_with(s, '/', '*') {
            lemma_block_finished(s.skip(2), depth + 1);
        } else {
            lemma_block_finished(s.skip(1), depth);
        }
    }
}

proof fn lemma_string_finished(s: Seq<char>)
    ensures
        string_len(s.push('\n')) == string_len(s) || (string_len(s) == s.len() && string_len(
            s.push('\n'),
        ) == s.len() + 1),
    decreases s.len(),
{
    let t = s.push('\n');
    if s.len() == 0 {
        assert(string_len(t.skip(1)) == 0);
    } else {
        assert(t.skip(1) =~= s.skip(1).push('\n'));
        if s.len() >= 2 {
            assert(t.skip(2) =~= s.skip(2).push('\n'));
        } else {
            assert(string_len(t.skip(2)) == 0);
            assert(string_len(s.skip(1)) == 0);
        }
        if s[0] == '"' {
        } else if s[0] == '\\' && s.len() >= 2 {
            lemma_string_finished(s.skip(2));
        } else {
            lemma_string_finished(s.skip(1));
        }
    }
}

proof fn lemma_hash_finished(s: Seq<char>)
    ensures
        hash_len(s.push('\n')) == hash_len(s),
    decreases s.len(),
{
    if s.len() > 0 {
        assert(s.push('\n').skip(1) =~= s.skip(1).push('\n'));
        lemma_hash_finished(s.skip(1));
    }
}

proof fn lemma_raw_finished(s: Seq<char>, hashes: nat)
    ensures
        raw_len(s.push('\n'), hashes) == raw_len(s, hashes) || (raw_len(s, hashes) == s.len()
            && raw_len(s.push('\n'), hashes) == s.len() + 1),
    decreases s.len(),
{
    let t = s.push('\n');
    if s.len() == 0 {
        assert(raw_len(t.skip(1), hashes) == 0);
    } else {
        assert(t.skip(1) =~= s.skip(1).push('\n'));
        lemma_hash_finished(s.skip(1));
        lemma_raw_finished(s.skip(1), hashes);
    }
}

proof fn lemma_name_finished(s: Seq<char>)
    ensures
        name_len(s.push('\n')) == name_len(s),
    decreases s.len(),
{
    if s.len() > 0 {
        assert(s.push('\n').skip(1) =~= s.skip(1).push('\n'));
        lemma_name_finished(s.skip(1));
    }
}

/// A text can be parsed with a line feed behind it, where it can be without.
pub proof fn lemma_parsable_finished(s: Seq<char>)
    requires
        parsable(s),
    ensures
        parsable(s.push('\n')),
    decreases s.len(),
{
    reveal_strlit("true");
    reveal_strlit("false");
    reveal_strlit("null");
    let t = s.push('\n');
    if s.len() == 0 {
        assert(parsable(t.skip(1)));
        assert(piece_len(t) == 1);
    } else {
        lemma_piece_len(s);
        lemma_piece_finished(s);
        if is_spoiled_by(t, "true"@) {
            lemma_spoiled_finished(s, "true"@);
        } else if is_spoiled_by(t, "false"@) {
            lemma_spoiled_finished(s, "false"@);
        } else if is_spoiled_by(t, "null"@) {
            lemma_spoiled_finished(s, "null"@);
        }
        let n = piece_len(s) as int;
        if piece_len(t) == n {
            assert(t.skip(n) =~= s.skip(n).push('\n'));
            lemma_parsable_finished(s.skip(n));
        } else {
            assert(parsable(t.skip(piece_len(t) as int)));
        }
    }
}

proof fn lemma_spoiled_finished(s: Seq<char>, word: Seq<char>)
    requires
        s.len() > 0,
        word.len() > 0,
        word.last() != '\n',
        is_spoiled_by(s.push('\n'), word),
    ensures
        is_spoiled_by(s, word),
{
    let t = s.push('\n');
    let n = 1 + word.len() as int;
    if s.len() < n {
        assert(t.subrange(1, n)[n - 2] == '\n');
    } else {
        assert(t.subrange(1, n) =~= s.subrange(1, n));
        assert(t.skip(n) =~= s.skip(n) + seq!['\n']);
        if can_cut(s.skip(n), word.len() as int) {
            lemma_cut_extended(s.skip(n), seq!['\n'], word.len() as int);
        }
        if s.len() > n {
            assert(t[n] == s[n]);
        }
    }
}

/// Characters of a name, up to the first that is none.
pub proof fn lemma_name_run(s: Seq<char>, n: nat)
    requires
        n <= s.len(),
        forall|i: int| 0 <= i < n ==> is_name_char(#[trigger] s[i]),
        n == s.len() || !is_name_char(s[n as int]),
    ensures
        name_len(s) == n,
    decreases n,
{
    if n > 0 {
        let rest = s.skip(1);
        assert forall|i: int| 0 <= i < n - 1 implies is_name_char(#[trigger] rest[i]) by {
            assert(rest[i] == s[i + 1]);
        }
        lemma_name_run(rest, (n - 1) as nat);
    }
}

// ---- Laws ------------------------------------------------------------------

/// A text without an opening bracket holds no annotation and can be parsed.
pub proof fn law_text_without_brackets_is_parsable(text: Seq<char>)
    requires
        !text.contains('('),
    ensures
        parsable(text),
    decreases text.len(),
{
    if text.len() > 0 {
        lemma_piece_len(text);
        let n = piece_len(text) as int;
        let rest = text.skip(n);
        assert(text[0] != '(');
        assert forall|i: int| 0 <= i < rest.len() implies rest[i] != '(' by {
            assert(rest[i] == text[n + i]);
        }
        law_text_without_brackets_is_parsable(rest);
    }
}

proof fn lemma_string_ends(inner: Seq<char>, rest: Seq<char>)
    requires
        !inner.contains('"'),
        !inner.contains('\\'),
    ensures
        string_len(inner + seq!['"'] + rest) == inner.len() + 1,
    decreases inner.len(),
{
    let s = inner + seq!['"'] + rest;
    if inner.len() > 0 {
        let more = inner.skip(1);
        assert(inner[0] != '"' && inner[0] != '\\');
        assert forall|i: int| 0 <= i < more.len() implies more[i] != '"' && more[i] != '\\' by {
            assert(more[i] == inner[i + 1]);
        }
        lemma_string_ends(more, rest);
        assert(s[0] == inner[0]);
        assert(s.skip(1) =~= more + seq!['"'] + rest);
    } else {
        assert(s[0] == '"');
    }
}

/// What stands in a string does not count.
pub proof fn law_strings_do_not_count(inner: Seq<char>, rest: Seq<char>)
    requires
        !inner.contains('"'),
        !inner.contains('\\'),
    ensures
        parsable(seq!['"'] + inner + seq!['"'] + rest) == parsable(rest),
{
    let s = seq!['"'] + inner + seq!['"'] + rest;
    lemma_string_ends(inner, rest);
    assert(s[0] == '"');
    assert(s.skip(1) =~= inner + seq!['"'] + rest);
    assert(piece_len(s) == inner.len() + 2);
    assert(s.skip(inner.len() as int + 2) =~= rest);
}

proof fn lemma_raw_ends(inner: Seq<char>, rest: Seq<char>, hashes: nat)
    requires
        !inner.contains('"'),
        hashes == 1,
    ensures
        raw_len(inner + seq!['"', '#'] + rest, hashes) == inner.len() + 2,
    decreases inner.len(),
{
    let s = inner + seq!['"', '#'] + rest;
    if inner.len() > 0 {
        let more = inner.skip(1);
        assert(inner[0] != '"');
        assert forall|i: int| 0 <= i < more.len() implies more[i] != '"' by {
            assert(more[i] == inner[i + 1]);
        }
        lemma_raw_ends(more, rest, hashes);
        assert(s[0] == inner[0]);
        assert(s.skip(1) =~= more + seq!['"', '#'] + rest);
    } else {
        assert(s[0] == '"');
        assert(s.skip(1)[0] == '#');
    }
}

/// What stands in a raw string does not count either, and a backslash in it is
/// nothing special.
pub proof fn law_raw_strings_do_not_count(inner: Seq<char>, rest: Seq<char>)
    requires
        !inner.contains('"'),
    ensures
        parsable(seq!['r', '#', '"'] + inner + seq!['"', '#'] + rest) == parsable(rest),
{
    let s = seq!['r', '#', '"'] + inner + seq!['"', '#'] + rest;
    let body = inner + seq!['"', '#'] + rest;
    lemma_raw_ends(inner, rest, 1);
    assert(s[0] == 'r' && s[1] == '#' && s[2] == '"');
    assert(s.skip(1)[0] == '#');
    assert(s.skip(1).skip(1)[0] == '"');
    assert(hash_len(s.skip(1).skip(1)) == 0);
    assert(hash_len(s.skip(1)) == 1);
    assert(s.skip(3) =~= body);
    assert(piece_len(s) == inner.len() + 5);
    assert(s.skip(inner.len() as int + 5) =~= rest);
}

proof fn lemma_line_ends(inner: Seq<char>, rest: Seq<char>)
    requires
        forall|i: int| 0 <= i < inner.len() ==> !is_line_end(#[trigger] inner[i]),
    ensures
        line_len(inner + seq!['\n'] + rest) == inner.len(),
    decreases inner.len(),
{
    let s = inner + seq!['\n'] + rest;
    if inner.len() > 0 {
        let more = inner.skip(1);
        assert forall|i: int| 0 <= i < more.len() implies !is_line_end(#[trigger] more[i]) by {
            assert(more[i] == inner[i + 1]);
        }
        lemma_line_ends(more, rest);
        assert(s[0] == inner[0]);
        assert(s.skip(1) =~= more + seq!['\n'] + rest);
    } else {
        assert(s[0] == '\n');
    }
}

/// What stands in a comment up to the end of its line does not count.
pub proof fn law_line_comments_do_not_count(inner: Seq<char>, rest: Seq<char>)
    requires
        forall|i: int| 0 <= i < inner.len() ==> !is_line_end(#[trigger] inner[i]),
    ensures
        parsable(seq!['/', '/'] + inner + seq!['\n'] + rest) == parsable(rest),
{
    let s = seq!['/', '/'] + inner + seq!['\n'] + rest;
    let after = seq!['\n'] + rest;
    lemma_line_ends(inner, rest);
    assert(s[0] == '/' && s[1] == '/');
    assert(s.skip(2) =~= inner + seq!['\n'] + rest);
    assert(s.skip(2 + inner.len() as int) =~= after);
    assert(after[0] == '\n');
    assert(piece_len(after) == 1);
    assert(after.skip(1) =~= rest);
    assert(piece_len(s) == 2 + inner.len());
    assert(is_spoiled(s) == is_spoiled(after));
    assert(is_spoiled(after) == is_spoiled(rest));
}

/// Whether a text holds neither the beginning nor the end of a comment, nor the
/// first half of either at its end.
pub open spec fn is_plain_comment(inner: Seq<char>) -> bool {
    forall|i: int| 0 <= i < inner.len() ==> #[trigger] inner[i] != '*' && inner[i] != '/'
}

proof fn lemma_block_ends(inner: Seq<char>, rest: Seq<char>, depth: nat)
    requires
        is_plain_comment(inner),
        depth >= 1,
    ensures
        block_len(inner + seq!['*', '/'] + rest, depth) == inner.len() + 2 + (if depth <= 1 {
            0
        } else {
            block_len(rest, (depth - 1) as nat)
        }),
        block_len(inner + seq!['/', '*'] + rest, depth) == inner.len() + 2 + block_len(
            rest,
            depth + 1,
        ),
    decreases inner.len(),
{
    let s = inner + seq!['*', '/'] + rest;
    let t = inner + seq!['/', '*'] + rest;
    if inner.len() > 0 {
        let more = inner.skip(1);
        assert(inner[0] != '*' && inner[0] != '/');
        assert forall|i: int| 0 <= i < more.len() implies #[trigger] more[i] != '*' && more[i]
            != '/' by {
            assert(more[i] == inner[i + 1]);
        }
        lemma_block_ends(more, rest, depth);
        assert(s[0] == inner[0] && t[0] == inner[0]);
        assert(s.skip(1) =~= more + seq!['*', '/'] + rest);
        assert(t.skip(1) =~= more + seq!['/', '*'] + rest);
    } else {
        assert(s[0] == '*' && s[1] == '/');
        assert(t[0] == '/' && t[1] == '*');
        assert(s.skip(2) =~= rest);
        assert(t.skip(2) =~= rest);
    }
}

/// What stands in a comment does not count, nor what stands in a comment within it:
/// comments nest.
pub proof fn law_comments_do_not_count(
    first: Seq<char>,
    inner: Seq<char>,
    last: Seq<char>,
    rest: Seq<char>,
)
    requires
        is_plain_comment(first),
        is_plain_comment(inner),
        is_plain_comment(last),
    ensures
        parsable(seq!['/', '*'] + first + seq!['*', '/'] + rest) == parsable(rest),
        parsable(
            seq!['/', '*'] + first + (seq!['/', '*'] + inner + seq!['*', '/']) + last + seq!['*', '/']
                + rest,
        ) == parsable(rest),
{
    let s = seq!['/', '*'] + first + seq!['*', '/'] + rest;
    lemma_block_ends(first, rest, 1);
    assert(s[0] == '/' && s[1] == '*');
    assert(s.skip(2) =~= first + seq!['*', '/'] + rest);
    assert(s.skip(first.len() as int + 4) =~= rest);
    let t = seq!['/', '*'] + first + (seq!['/', '*'] + inner + seq!['*', '/']) + last + seq!['*', '/']
        + rest;
    let end = last + seq!['*', '/'] + rest;
    let middle = inner + seq!['*', '/'] + end;
    lemma_block_ends(last, rest, 1);
    lemma_block_ends(inner, end, 2);
    lemma_block_ends(first, middle, 1);
    assert(t[0] == '/' && t[1] == '*');
    assert(t.skip(2) =~= first + seq!['/', '*'] + middle);
    let n = 2 + first.len() as int + 2 + inner.len() as int + 2 + last.len() as int + 2;
    assert(piece_len(t) == n);
    assert(t.skip(n) =~= rest);
}

/// An annotation that is no reserved word does no harm: what counts is behind its
/// bracket.
pub proof fn law_other_annotations_do_no_harm(rest: Seq<char>)
    requires
        forall|word: Seq<char>|
            word == "true"@ || word == "false"@ || word == "null"@ ==> !(rest.len() >= word.len()
                && #[trigger] rest.take(word.len() as int) == word),
    ensures
        parsable(seq!['('] + rest) == parsable(rest),
{
    let s = seq!['('] + rest;
    assert(s[0] == '(');
    assert(piece_len(s) == 1);
    assert(s.skip(1) =~= rest);
    assert forall|word: Seq<char>|
        word == "true"@ || word == "false"@ || word == "null"@ implies !#[trigger] is_spoiled_by(
        s,
        word,
    ) by {
        if is_spoiled_by(s, word) {
            assert(s.subrange(1, 1 + word.len() as int) =~= rest.take(word.len() as int));
        }
    }
    assert(!is_spoiled_by(s, "true"@));
    assert(!is_spoiled_by(s, "false"@));
    assert(!is_spoiled_by(s, "null"@));
}

proof fn lemma_no_cut(s: Seq<char>, n: int)
    requires
        s.len() < n,
        forall|i: int| 0 <= i < s.len() ==> (#[trigger] s[i] as int) < 0x80,
    ensures
        !can_cut(s, n),
    decreases s.len(),
{
    if s.len() > 0 {
        let rest = s.skip(1);
        assert((s[0] as int) < 0x80);
        assert forall|i: int| 0 <= i < rest.len() implies (#[trigger] rest[i] as int) < 0x80 by {
            assert(rest[i] == s[i + 1]);
        }
        lemma_no_cut(rest, n - 1);
    }
}

/// A reserved word as an annotation, with less behind it than the word is long,
/// cannot be parsed.
pub proof fn law_reserved_annotation_at_the_end(word: Seq<char>, rest: Seq<char>)
    requires
        word == "true"@ || word == "false"@ || word == "null"@,
        rest.len() < word.len(),
        forall|i: int| 0 <= i < rest.len() ==> (#[trigger] rest[i] as int) < 0x80,
        rest.len() > 0 ==> !is_name_char(rest[0]),
    ensures
        !parsable(seq!['('] + word + rest),
{
    let s = seq!['('] + word + rest;
    let n = 1 + word.len() as int;
    lemma_no_cut(rest, word.len() as int);
    assert(s[0] == '(');
    assert(s.subrange(1, n) =~= word);
    assert(s.skip(n) =~= rest);
    assert(rest.len() > 0 ==> s[n] == rest[0]);
    assert(is_spoiled_by(s, word));
}

/// A cut falls between two characters if and only if it leaves some of them whole
/// before it: as many bytes as those take in UTF-8.
pub proof fn law_cuts_fall_between_characters(s: Seq<char>, n: int)
    ensures
        can_cut(s, n) <==> exists|k: int|
            0 <= k <= s.len() && #[trigger] vstd::utf8::encode_utf8(s.take(k)).len() == n,
    decreases s.len(),
{
    let none = Seq::<char>::empty();
    assert(s.take(0) =~= none);
    assert(vstd::utf8::encode_utf8(s.take(0)).len() == 0);
    if s.len() > 0 {
        let rest = s.skip(1);
        let width = utf8_width(s[0]);
        vstd::utf8::char_is_scalar(s[0]);
        vstd::utf8::char_u32_cast(s[0], s[0] as u32);
        assert(vstd::utf8::encode_scalar(s[0] as u32).len() == width);
        law_cuts_fall_between_characters(rest, n - width);
        assert forall|k: int| 1 <= k <= s.len() implies #[trigger] vstd::utf8::encode_utf8(
            s.take(k),
        ).len() == width + vstd::utf8::encode_utf8(rest.take(k - 1)).len() by {
            assert(s.take(k).drop_first() =~= rest.take(k - 1));
            assert(s.take(k)[0] == s[0]);
        }
        if can_cut(s, n) && n != 0 {
            let k = choose|k: int|
                0 <= k <= rest.len() && #[trigger] vstd::utf8::encode_utf8(rest.take(k)).len() == n
                    - width;
            assert(s.take(k + 1).len() == k + 1);
            assert(vstd::utf8::encode_utf8(s.take(k + 1)).len() == n);
        }
        if exists|k: int|
            0 <= k <= s.len() && #[trigger] vstd::utf8::encode_utf8(s.take(k)).len() == n {
            let k = choose|k: int|
                0 <= k <= s.len() && #[trigger] vstd::utf8::encode_utf8(s.take(k)).len() == n;
            if k > 0 {
                assert(vstd::utf8::encode_utf8(rest.take(k - 1)).len() == n - width);
                assert(width > 0);
            }
        }
    } else {
        assert forall|k: int| 0 <= k <= s.len() implies #[trigger] vstd::utf8::encode_utf8(
            s.take(k),
        ).len() == 0 by {
            assert(s.take(k) =~= none);
        }
    }
}

/// A line ends with a line feed, a carriage return, a next line, a form feed, or a
/// separator of lines or of paragraphs.
pub proof fn law_line_ends(c: char)
    ensures
        is_line_end(c) <==> seq![
            '\n',
            '\r',
            '\u{000C}',
            '\u{0085}',
            '\u{2028}',
            '\u{2029}',
        ].contains(c),
{
    let all = seq!['\n', '\r', '\u{000C}', '\u{0085}', '\u{2028}', '\u{2029}'];
    assert(all.len() == 6);
    assert(all[0] == '\n' && all[1] == '\r' && all[2] == '\u{000C}');
    assert(all[3] == '\u{0085}' && all[4] == '\u{2028}' && all[5] == '\u{2029}');
}

/// A character is part of a name unless it is a control character, ends a line, is
/// white space, begins or ends a string, a bracket or a node, or joins what stands
/// around it.
pub proof fn law_characters_of_names(c: char)
    ensures
        'a' <= c <= 'z' || 'A' <= c <= 'Z' || '0' <= c <= '9' || c == '-' || c == '_' || c == '.'
            || c == '#' || c == '\'' ==> is_name_char(c),
        is_white_space(c) || (c as int) < 0x20 || c == '\u{FEFF}' || seq![
            '\\',
            '/',
            '(',
            ')',
            '{',
            '}',
            '<',
            '>',
            ';',
            '[',
            ']',
            '=',
            ',',
            '"',
        ].contains(c) ==> !is_name_char(c),
        is_name_char(c) || is_white_space(c) || (c as int) < 0x20 || c == '\u{FEFF}' || seq![
            '\\',
            '/',
            '(',
            ')',
            '{',
            '}',
            '<',
            '>',
            ';',
            '[',
            ']',
            '=',
            ',',
            '"',
        ].contains(c),
{
    let all = seq!['\\', '/', '(', ')', '{', '}', '<', '>', ';', '[', ']', '=', ',', '"'];
    assert(all.len() == 14);
    assert(all[0] == '\\' && all[1] == '/' && all[2] == '(' && all[3] == ')' && all[4] == '{');
    assert(all[5] == '}' && all[6] == '<' && all[7] == '>' && all[8] == ';' && all[9] == '[');
    assert(all[10] == ']' && all[11] == '=' && all[12] == ',' && all[13] == '"');
}

} // verus!
