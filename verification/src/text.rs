//! Text helpers: character sequences, decimal numbers, joining, trimming and
//! line splitting, each stated over the characters of the text.

use crate::order::Ranked;
use vstd::prelude::*;
use vstd::string::*;

verus! {

/// `String::push` appends one character to the text.
pub assume_specification[ String::push ](s: &mut String, c: char)
    ensures
        final(s)@ == old(s)@.push(c),
;

/// The characters of each string of a list.
pub open spec fn texts(v: Seq<String>) -> Seq<Seq<char>> {
    v.map_values(|s: String| s@)
}

/// The characters of each string slice of a list.
pub open spec fn slices(v: Seq<&str>) -> Seq<Seq<char>> {
    v.map_values(|s: &str| s@)
}

/// The characters of an optional string.
pub open spec fn text_of(s: Option<String>) -> Option<Seq<char>> {
    match s {
        Some(t) => Some(t@),
        None => None,
    }
}

/// The characters of `s` as a vector.
pub fn chars_of(s: &str) -> (r: Vec<char>)
    ensures
        r@ == s@,
{
    let mut v: Vec<char> = Vec::new();
    for c in it: s.chars()
        invariant
            it.seq() == s@,
            v@ == s@.take(it.index() as int),
    {
        v.push(c);
    }
    proof {
        assert(s@.take(s@.len() as int) =~= s@);
    }
    v
}

/// The string made of `chars[from..to]`.
pub fn string_of(chars: &Vec<char>, from: usize, to: usize) -> (r: String)
    requires
        from <= to <= chars@.len(),
    ensures
        r@ == chars@.subrange(from as int, to as int),
{
    let mut s = String::new();
    let mut i: usize = from;
    while i < to
        invariant
            from <= i <= to <= chars@.len(),
            s@ == chars@.subrange(from as int, i as int),
        decreases to - i,
    {
        s.push(chars[i]);
        proof {
            assert(chars@.subrange(from as int, i as int).push(chars@[i as int])
                =~= chars@.subrange(from as int, i + 1));
        }
        i = i + 1;
    }
    s
}

/// Whether two texts hold the same characters.
pub fn str_eq(a: &str, b: &str) -> (r: bool)
    ensures
        r == (a@ == b@),
{
    let x = a.to_owned();
    let y = b.to_owned();
    x == y
}

/// Whether one of `items` is the text `wanted`.
pub fn has_text(items: &Vec<String>, wanted: &str) -> (r: bool)
    ensures
        r == texts(items@).contains(wanted@),
{
    let mut i: usize = 0;
    while i < items.len()
        invariant
            i <= items@.len(),
            forall|j: int| 0 <= j < i ==> texts(items@)[j] != wanted@,
        decreases items@.len() - i,
    {
        if str_eq(items[i].as_str(), wanted) {
            proof {
                assert(texts(items@)[i as int] == wanted@);
            }
            return true;
        }
        i = i + 1;
    }
    false
}

/// Whether one of `items` is the text `wanted`.
pub fn has_slice(items: &[&str], wanted: &str) -> (r: bool)
    ensures
        r == slices(items@).contains(wanted@),
{
    let mut i: usize = 0;
    while i < items.len()
        invariant
            i <= items@.len(),
            forall|j: int| 0 <= j < i ==> slices(items@)[j] != wanted@,
        decreases items@.len() - i,
    {
        if str_eq(items[i], wanted) {
            proof {
                assert(slices(items@)[i as int] == wanted@);
            }
            return true;
        }
        i = i + 1;
    }
    false
}

/// Slices of strings.
pub fn string_slices(strings: &Vec<String>) -> (r: Vec<&str>)
    ensures
        slices(r@) == texts(strings@),
{
    let mut out: Vec<&str> = Vec::new();
    let mut i: usize = 0;
    while i < strings.len()
        invariant
            i <= strings@.len(),
            out@.len() == i,
            forall|j: int| 0 <= j < i ==> (#[trigger] out@[j])@ == strings@[j]@,
        decreases strings@.len() - i,
    {
        out.push(strings[i].as_str());
        i = i + 1;
    }
    proof {
        assert(slices(out@) =~= texts(strings@));
    }
    out
}

/// Copies of strings.
pub fn copied(strings: &Vec<String>) -> (r: Vec<String>)
    ensures
        r@ == strings@,
{
    let mut out: Vec<String> = Vec::new();
    let mut i: usize = 0;
    while i < strings.len()
        invariant
            i <= strings@.len(),
            out@.len() == i,
            forall|j: int| 0 <= j < i ==> out@[j] == strings@[j],
        decreases strings@.len() - i,
    {
        out.push(strings[i].clone());
        i = i + 1;
    }
    proof {
        assert(out@ =~= strings@);
    }
    out
}

/// Copies of the strings that `from` points to.
pub fn copied_from(from: &Vec<&String>) -> (r: Vec<String>)
    ensures
        r@ == from@.unref(),
{
    let mut out: Vec<String> = Vec::new();
    let mut i: usize = 0;
    while i < from.len()
        invariant
            i <= from@.len(),
            out@.len() == i,
            forall|j: int| 0 <= j < i ==> out@[j] == *from@[j],
        decreases from@.len() - i,
    {
        out.push(from[i].clone());
        i = i + 1;
    }
    proof {
        assert(out@ =~= from@.unref());
    }
    out
}

// ---- Texts that are not taken ----------------------------------------------

/// The length of the longest text.
pub open spec fn longest(taken: Seq<Seq<char>>) -> nat
    decreases taken.len(),
{
    if taken.len() == 0 {
        0
    } else if taken.last().len() > longest(taken.drop_last()) {
        taken.last().len()
    } else {
        longest(taken.drop_last())
    }
}

/// No text is longer than the longest.
pub proof fn lemma_longest(taken: Seq<Seq<char>>, s: Seq<char>)
    requires
        taken.contains(s),
    ensures
        s.len() <= longest(taken),
    decreases taken.len(),
{
    let i = choose|i: int| 0 <= i < taken.len() && taken[i] == s;
    if i < taken.len() - 1 {
        assert(taken.drop_last()[i] == s);
        lemma_longest(taken.drop_last(), s);
    }
}

/// `form` with as few underscores behind it as make it a text that is not taken.
pub open spec fn untaken(form: Seq<char>, taken: Seq<Seq<char>>) -> Seq<char>
    decreases longest(taken) + 1 - form.len(),
{
    if taken.contains(form) {
        proof {
            lemma_longest(taken, form);
        }
        untaken(form.push('_'), taken)
    } else {
        form
    }
}

/// What `untaken` gives is not taken and begins with `form`.
pub proof fn lemma_untaken(form: Seq<char>, taken: Seq<Seq<char>>)
    ensures
        !taken.contains(untaken(form, taken)),
        untaken(form, taken).len() >= form.len(),
        untaken(form, taken).take(form.len() as int) == form,
        form.len() > 0 && form.last() == '_' ==> untaken(form, taken).last() == '_',
    decreases longest(taken) + 1 - form.len(),
{
    if taken.contains(form) {
        lemma_longest(taken, form);
        let next = form.push('_');
        lemma_untaken(next, taken);
        let r = untaken(next, taken);
        assert(r.take(form.len() as int) =~= r.take(next.len() as int).take(form.len() as int));
        assert(next.take(form.len() as int) =~= form);
    } else {
        assert(form.take(form.len() as int) =~= form);
    }
}

/// Puts underscores behind `form` until nothing in `taken` reads like it.
pub fn untaken_text(form: &str, taken: &[&str]) -> (r: String)
    ensures
        r@ == untaken(form@, slices(taken@)),
{
    let mut out = form.to_owned();
    while has_slice(taken, out.as_str())
        invariant
            untaken(form@, slices(taken@)) == untaken(out@, slices(taken@)),
        decreases longest(slices(taken@)) + 1 - out@.len(),
    {
        proof {
            lemma_longest(slices(taken@), out@);
        }
        out.push('_');
    }
    out
}

/// How `{:?}` shows a text: in quotes, with what is not printable escaped.
pub uninterp spec fn debug_form(s: Seq<char>) -> Seq<char>;

/// Calls the `Debug` formatting of `str`. Its result is a function of the text
/// alone; which characters it escapes is not stated here.
#[verifier::external_body]
pub(crate) fn debug_text(s: &str) -> (r: String)
    ensures
        r@ == debug_form(s@),
{
    format!("{s:?}")
}

/// Bytes as text, with every part that is not UTF-8 replaced.
pub uninterp spec fn lossy_text(bytes: Seq<u8>) -> Seq<char>;

/// Calls `String::from_utf8_lossy`. Its result is a function of the bytes; where
/// they are UTF-8, it is the text that they encode. How other bytes are replaced
/// is not stated here.
#[verifier::external_body]
pub(crate) fn from_utf8_lossy(bytes: &[u8]) -> (r: String)
    ensures
        r@ == lossy_text(bytes@),
        vstd::utf8::valid_utf8(bytes@) ==> r@ == vstd::utf8::decode_utf8(bytes@),
{
    String::from_utf8_lossy(bytes).into_owned()
}

// ---- Order -----------------------------------------------------------------

/// Whether `a` comes before `b` in a dictionary, or is `b`: the first character
/// in which they differ decides, and a text comes before its continuations.
pub open spec fn text_at_most(a: Seq<char>, b: Seq<char>) -> bool
    decreases a.len(),
{
    if a.len() == 0 {
        true
    } else if b.len() == 0 {
        false
    } else if a[0] == b[0] {
        text_at_most(a.drop_first(), b.drop_first())
    } else {
        a[0] < b[0]
    }
}

proof fn lemma_text_total(a: Seq<char>, b: Seq<char>)
    ensures
        text_at_most(a, b) || text_at_most(b, a),
    decreases a.len(),
{
    if a.len() > 0 && b.len() > 0 && a[0] == b[0] {
        lemma_text_total(a.drop_first(), b.drop_first());
    }
}

proof fn lemma_text_transitive(a: Seq<char>, b: Seq<char>, c: Seq<char>)
    requires
        text_at_most(a, b),
        text_at_most(b, c),
    ensures
        text_at_most(a, c),
    decreases a.len(),
{
    if a.len() > 0 && b.len() > 0 && c.len() > 0 && a[0] == b[0] && b[0] == c[0] {
        lemma_text_transitive(a.drop_first(), b.drop_first(), c.drop_first());
    }
}

/// Strings rank by the order of a dictionary.
impl Ranked for String {
    open spec fn at_most(&self, other: &Self) -> bool {
        text_at_most(self@, other@)
    }

    fn is_at_most(&self, other: &Self) -> (r: bool) {
        let a = chars_of(self.as_str());
        let b = chars_of(other.as_str());
        let mut i: usize = 0;
        proof {
            assert(a@.skip(0) =~= a@);
            assert(b@.skip(0) =~= b@);
        }
        while i < a.len()
            invariant
                i <= a@.len(),
                i <= b@.len(),
                a@ == self@,
                b@ == other@,
                text_at_most(a@.skip(i as int), b@.skip(i as int)) == text_at_most(a@, b@),
            decreases a@.len() - i,
        {
            proof {
                assert(a@.skip(i as int).drop_first() =~= a@.skip(i + 1));
                if i < b@.len() {
                    assert(b@.skip(i as int).drop_first() =~= b@.skip(i + 1));
                }
            }
            if i >= b.len() {
                return false;
            }
            if a[i] != b[i] {
                return a[i] < b[i];
            }
            i = i + 1;
        }
        true
    }

    proof fn lemma_total(a: Self, b: Self) {
        lemma_text_total(a@, b@);
    }

    proof fn lemma_transitive(a: Self, b: Self, c: Self) {
        lemma_text_transitive(a@, b@, c@);
    }
}

// ---- Numbers ---------------------------------------------------------------

/// The decimal digit of `d`, for `d` below ten.
pub open spec fn digit(d: nat) -> char {
    (('0' as nat) + d) as char
}

/// `n` in decimal, without leading zeros.
pub open spec fn decimal(n: nat) -> Seq<char>
    decreases n,
{
    if n < 10 {
        seq![digit(n)]
    } else {
        decimal(n / 10).push(digit(n % 10))
    }
}

/// The decimal digit of `d`.
pub fn digit_char(d: u64) -> (r: char)
    requires
        d < 10,
    ensures
        r == digit(d as nat),
{
    if d == 0 {
        '0'
    } else if d == 1 {
        '1'
    } else if d == 2 {
        '2'
    } else if d == 3 {
        '3'
    } else if d == 4 {
        '4'
    } else if d == 5 {
        '5'
    } else if d == 6 {
        '6'
    } else if d == 7 {
        '7'
    } else if d == 8 {
        '8'
    } else {
        '9'
    }
}

/// `n` in decimal.
pub fn decimal_text(n: u64) -> (r: String)
    ensures
        r@ == decimal(n as nat),
    decreases n,
{
    if n < 10 {
        let mut s = String::new();
        s.push(digit_char(n));
        proof {
            assert(s@ =~= seq![digit(n as nat)]);
        }
        s
    } else {
        let mut s = decimal_text(n / 10);
        s.push(digit_char(n % 10));
        s
    }
}

/// A decimal numeral is not empty and holds digits only.
pub proof fn lemma_decimal_digits(n: nat)
    ensures
        decimal(n).len() >= 1,
        forall|i: int| 0 <= i < decimal(n).len() ==> '0' <= #[trigger] decimal(n)[i] <= '9',
    decreases n,
{
    if n >= 10 {
        lemma_decimal_digits(n / 10);
    }
}

/// Two numbers with the same decimal numeral are the same number.
pub proof fn lemma_decimal_injective(a: nat, b: nat)
    requires
        decimal(a) == decimal(b),
    ensures
        a == b,
    decreases a,
{
    lemma_decimal_digits(a / 10);
    lemma_decimal_digits(b / 10);
    if a < 10 && b < 10 {
        assert(decimal(a)[0] == digit(a));
        assert(decimal(b)[0] == digit(b));
    } else if a < 10 {
        assert(decimal(a).len() == 1);
        assert(decimal(b).len() == decimal(b / 10).len() + 1);
    } else if b < 10 {
        assert(decimal(b).len() == 1);
        assert(decimal(a).len() == decimal(a / 10).len() + 1);
    } else {
        assert(decimal(a).drop_last() =~= decimal(a / 10));
        assert(decimal(b).drop_last() =~= decimal(b / 10));
        assert(decimal(a).last() == digit(a % 10));
        assert(decimal(b).last() == digit(b % 10));
        lemma_decimal_injective(a / 10, b / 10);
    }
}

// ---- Joining ---------------------------------------------------------------

/// The parts in order, with `sep` between neighbours.
pub open spec fn joined(parts: Seq<Seq<char>>, sep: Seq<char>) -> Seq<char>
    decreases parts.len(),
{
    if parts.len() == 0 {
        Seq::empty()
    } else if parts.len() == 1 {
        parts[0]
    } else {
        joined(parts.drop_last(), sep) + sep + parts.last()
    }
}

/// The parts in order, each followed by `end`.
pub open spec fn terminated(parts: Seq<Seq<char>>, end: Seq<char>) -> Seq<char>
    decreases parts.len(),
{
    if parts.len() == 0 {
        Seq::empty()
    } else {
        terminated(parts.drop_last(), end) + parts.last() + end
    }
}

/// Joins `parts` with `sep` between neighbours.
pub fn join_texts(parts: &Vec<String>, sep: &str) -> (r: String)
    ensures
        r@ == joined(texts(parts@), sep@),
{
    let mut s = String::new();
    let mut i: usize = 0;
    let ghost all = texts(parts@);
    while i < parts.len()
        invariant
            i <= parts@.len(),
            all == texts(parts@),
            s@ == joined(all.take(i as int), sep@),
        decreases parts@.len() - i,
    {
        if i > 0 {
            s.append(sep);
        }
        s.append(parts[i].as_str());
        proof {
            let next = all.take(i + 1);
            assert(next.drop_last() =~= all.take(i as int));
            assert(next.last() == parts@[i as int]@);
            if i == 0 {
                assert(all.take(0).len() == 0);
                assert(Seq::<char>::empty() + parts@[0]@ =~= parts@[0]@);
            }
        }
        i = i + 1;
    }
    proof {
        assert(all.take(all.len() as int) =~= all);
    }
    s
}

// ---- Columns ---------------------------------------------------------------

/// `n` spaces.
pub open spec fn spaces(n: nat) -> Seq<char> {
    Seq::new(n, |i: int| ' ')
}

/// `s` filled up with spaces to `width` characters; a longer text stays as it
/// is.
pub open spec fn padded(s: Seq<char>, width: nat) -> Seq<char> {
    if s.len() < width {
        s + spaces((width - s.len()) as nat)
    } else {
        s
    }
}

/// `s` filled up with spaces to `width` characters.
pub fn pad(s: &str, width: usize) -> (r: String)
    ensures
        r@ == padded(s@, width as nat),
{
    let mut out = s.to_owned();
    let chars = chars_of(s);
    let mut n: usize = chars.len();
    proof {
        assert(out@ =~= s@ + spaces(0));
    }
    while n < width
        invariant
            chars@ == s@,
            s@.len() <= n,
            n <= width || n == s@.len(),
            out@ == s@ + spaces((n - s@.len()) as nat),
        decreases width - n,
    {
        out.push(' ');
        proof {
            assert(out@ =~= s@ + spaces((n + 1 - s@.len()) as nat));
        }
        n = n + 1;
    }
    proof {
        if s@.len() >= width {
            assert(out@ =~= s@);
        }
    }
    out
}

/// How many bytes `s` takes in UTF-8.
pub open spec fn byte_len(s: Seq<char>) -> usize {
    vstd::utf8::encode_utf8(s).len() as usize
}

// ---- White space -----------------------------------------------------------

/// The characters with the Unicode property `White_Space`.
pub open spec fn is_white_space(c: char) -> bool {
    let n = c as u32;
    ||| 0x09 <= n <= 0x0D
    ||| n == 0x20
    ||| n == 0x85
    ||| n == 0xA0
    ||| n == 0x1680
    ||| 0x2000 <= n <= 0x200A
    ||| n == 0x2028
    ||| n == 0x2029
    ||| n == 0x202F
    ||| n == 0x205F
    ||| n == 0x3000
}

/// Whether `c` is white space.
pub fn white_space(c: char) -> (r: bool)
    ensures
        r == is_white_space(c),
{
    let n: u32 = c as u32;
    (0x09 <= n && n <= 0x0D) || n == 0x20 || n == 0x85 || n == 0xA0 || n == 0x1680 || (0x2000 <= n
        && n <= 0x200A) || n == 0x2028 || n == 0x2029 || n == 0x202F || n == 0x205F || n == 0x3000
}

/// `s` without its leading white space.
pub open spec fn trimmed_start(s: Seq<char>) -> Seq<char>
    decreases s.len(),
{
    if s.len() > 0 && is_white_space(s[0]) {
        trimmed_start(s.drop_first())
    } else {
        s
    }
}

/// `s` without its trailing white space.
pub open spec fn trimmed_end(s: Seq<char>) -> Seq<char>
    decreases s.len(),
{
    if s.len() > 0 && is_white_space(s.last()) {
        trimmed_end(s.drop_last())
    } else {
        s
    }
}

/// `s` without white space at either end.
pub open spec fn trimmed(s: Seq<char>) -> Seq<char> {
    trimmed_end(trimmed_start(s))
}

proof fn lemma_start_keeps(s: Seq<char>, i: int)
    requires
        0 <= i < s.len(),
        !is_white_space(s[i]),
    ensures
        exists|j: int| 0 <= j < trimmed_start(s).len() && trimmed_start(s)[j] == s[i],
    decreases s.len(),
{
    if is_white_space(s[0]) {
        let rest = s.drop_first();
        assert(rest[i - 1] == s[i]);
        lemma_start_keeps(rest, i - 1);
        assert(trimmed_start(s) == trimmed_start(rest));
        let j = choose|j: int|
            0 <= j < trimmed_start(rest).len() && trimmed_start(rest)[j] == rest[i - 1];
        assert(trimmed_start(s)[j] == s[i]);
    } else {
        assert(trimmed_start(s)[i] == s[i]);
    }
}

proof fn lemma_end_keeps(s: Seq<char>, i: int)
    requires
        0 <= i < s.len(),
        !is_white_space(s[i]),
    ensures
        trimmed_end(s).len() > 0,
    decreases s.len(),
{
    if is_white_space(s.last()) {
        assert(s.drop_last()[i] == s[i]);
        lemma_end_keeps(s.drop_last(), i);
    }
}

/// What holds a character other than white space is not blank.
pub proof fn lemma_not_blank(s: Seq<char>, i: int)
    requires
        0 <= i < s.len(),
        !is_white_space(s[i]),
    ensures
        trimmed(s).len() > 0,
{
    lemma_start_keeps(s, i);
    let rest = trimmed_start(s);
    let j = choose|j: int| 0 <= j < rest.len() && rest[j] == s[i];
    lemma_end_keeps(rest, j);
}

proof fn lemma_start_blank(s: Seq<char>)
    requires
        forall|i: int| 0 <= i < s.len() ==> is_white_space(#[trigger] s[i]),
    ensures
        trimmed_start(s).len() == 0,
    decreases s.len(),
{
    if s.len() > 0 {
        let rest = s.drop_first();
        assert forall|i: int| 0 <= i < rest.len() implies is_white_space(#[trigger] rest[i]) by {
            assert(rest[i] == s[i + 1]);
        }
        lemma_start_blank(rest);
    }
}

/// A text is blank if and only if it holds nothing but white space.
pub proof fn lemma_blank(s: Seq<char>)
    ensures
        trimmed(s).len() == 0 <==> forall|i: int|
            0 <= i < s.len() ==> is_white_space(#[trigger] s[i]),
{
    if forall|i: int| 0 <= i < s.len() ==> is_white_space(#[trigger] s[i]) {
        lemma_start_blank(s);
        assert(trimmed_end(trimmed_start(s)) == trimmed_start(s));
    } else {
        let i = choose|i: int| 0 <= i < s.len() && !is_white_space(#[trigger] s[i]);
        lemma_not_blank(s, i);
    }
}

proof fn lemma_start_cut(s: Seq<char>)
    ensures
        trimmed_start(s).len() > 0 ==> !is_white_space(trimmed_start(s)[0]),
    decreases s.len(),
{
    if s.len() > 0 && is_white_space(s[0]) {
        lemma_start_cut(s.drop_first());
    }
}

proof fn lemma_end_cut(s: Seq<char>)
    ensures
        trimmed_end(s).len() > 0 ==> !is_white_space(trimmed_end(s).last()) && trimmed_end(s)[0]
            == s[0],
    decreases s.len(),
{
    if s.len() > 0 && is_white_space(s.last()) {
        lemma_end_cut(s.drop_last());
    }
}

/// What is left of a text without white space around it neither begins nor ends
/// with white space.
pub proof fn lemma_trimmed_ends(s: Seq<char>)
    ensures
        trimmed(s).len() > 0 ==> !is_white_space(trimmed(s)[0]) && !is_white_space(
            trimmed(s).last(),
        ),
{
    lemma_start_cut(s);
    lemma_end_cut(trimmed_start(s));
    if trimmed(s).len() > 0 {
        assert(trimmed_start(s).len() > 0);
    }
}

/// `s` without its trailing white space.
pub fn trim_end(s: &str) -> (r: String)
    ensures
        r@ == trimmed_end(s@),
{
    let chars = chars_of(s);
    let mut to: usize = chars.len();
    proof {
        assert(s@.take(s@.len() as int) =~= s@);
    }
    while to > 0 && white_space(chars[to - 1])
        invariant
            to <= chars@.len(),
            chars@ == s@,
            trimmed_end(s@.take(to as int)) == trimmed_end(s@),
        decreases to,
    {
        proof {
            assert(s@.take(to as int).drop_last() =~= s@.take(to - 1));
            assert(s@.take(to as int).last() == s@[to - 1]);
        }
        to = to - 1;
    }
    proof {
        assert(to > 0 ==> s@.take(to as int).last() == s@[to - 1]);
        assert(chars@.subrange(0, to as int) =~= s@.take(to as int));
    }
    string_of(&chars, 0, to)
}

/// `s` without white space at either end.
pub fn trim(s: &str) -> (r: String)
    ensures
        r@ == trimmed(s@),
{
    let chars = chars_of(s);
    let mut from: usize = 0;
    proof {
        assert(s@.skip(0) =~= s@);
    }
    while from < chars.len() && white_space(chars[from])
        invariant
            from <= chars@.len(),
            chars@ == s@,
            trimmed_start(s@.skip(from as int)) == trimmed_start(s@),
        decreases chars@.len() - from,
    {
        proof {
            assert(s@.skip(from as int).drop_first() =~= s@.skip(from + 1));
        }
        from = from + 1;
    }
    proof {
        assert(chars@.subrange(from as int, chars@.len() as int) =~= s@.skip(from as int));
    }
    let rest = string_of(&chars, from, chars.len());
    trim_end(rest.as_str())
}

// ---- Lines -----------------------------------------------------------------

/// The index of the first `c` in `s`, or `s.len()` where there is none.
pub open spec fn first_index(s: Seq<char>, c: char) -> int
    decreases s.len(),
{
    if s.len() == 0 || s[0] == c {
        0
    } else {
        1 + first_index(s.drop_first(), c)
    }
}

/// `s` without one trailing carriage return.
pub open spec fn without_return(s: Seq<char>) -> Seq<char> {
    if s.len() > 0 && s.last() == '\r' {
        s.drop_last()
    } else {
        s
    }
}

/// The lines of `s`: it is cut at every line feed, which may have a carriage
/// return before it; neither is part of a line, and a last line needs no line
/// feed.
pub open spec fn split_lines(s: Seq<char>) -> Seq<Seq<char>>
    decreases s.len(),
{
    if s.len() == 0 {
        Seq::empty()
    } else {
        let k = first_index(s, '\n');
        if 0 <= k < s.len() {
            seq![without_return(s.take(k))] + split_lines(s.skip(k + 1))
        } else {
            seq![s]
        }
    }
}

/// What `first_index` gives.
pub proof fn lemma_first_index(s: Seq<char>, c: char)
    ensures
        0 <= first_index(s, c) <= s.len(),
        forall|i: int| 0 <= i < first_index(s, c) ==> s[i] != c,
        first_index(s, c) < s.len() ==> s[first_index(s, c)] == c,
    decreases s.len(),
{
    if s.len() > 0 && s[0] != c {
        lemma_first_index(s.drop_first(), c);
        let k = first_index(s.drop_first(), c);
        assert forall|i: int| 0 <= i < k + 1 implies s[i] != c by {
            if i > 0 {
                assert(s.drop_first()[i - 1] == s[i]);
            }
        }
    }
}

/// `first_index` is the only index with these properties.
pub proof fn lemma_first_index_unique(s: Seq<char>, c: char, k: int)
    requires
        0 <= k <= s.len(),
        forall|i: int| 0 <= i < k ==> s[i] != c,
        k < s.len() ==> s[k] == c,
    ensures
        first_index(s, c) == k,
{
    lemma_first_index(s, c);
    let j = first_index(s, c);
    if j < k {
        assert(s[j] != c);
    } else if k < j {
        assert(s[k] != c);
    }
}

/// The parts of `s` between the characters `c`; there is always at least one.
pub open spec fn split(s: Seq<char>, c: char) -> Seq<Seq<char>>
    decreases s.len(),
{
    let k = first_index(s, c);
    if 0 <= k < s.len() {
        seq![s.take(k)] + split(s.skip(k + 1), c)
    } else {
        seq![s]
    }
}

/// Cuts `s` at every character `c`.
pub fn split_text(s: &str, c: char) -> (r: Vec<String>)
    ensures
        texts(r@) == split(s@, c),
{
    let chars = chars_of(s);
    let mut out: Vec<String> = Vec::new();
    let mut from: usize = 0;
    let mut to: usize = 0;
    proof {
        assert(s@.skip(0) =~= s@);
        assert(texts(out@) + split(s@, c) =~= split(s@, c));
    }
    while to < chars.len()
        invariant
            from <= to <= chars@.len(),
            chars@ == s@,
            forall|i: int| from <= i < to ==> chars@[i] != c,
            texts(out@) + split(s@.skip(from as int), c) == split(s@, c),
        decreases chars@.len() - to,
    {
        if chars[to] == c {
            let ghost rest = s@.skip(from as int);
            let ghost before = out@;
            out.push(string_of(&chars, from, to));
            proof {
                assert forall|i: int| 0 <= i < to - from implies rest[i] != c by {
                    assert(rest[i] == chars@[from + i]);
                }
                assert(rest[to - from] == chars@[to as int]);
                lemma_first_index_unique(rest, c, to - from);
                assert(rest.take(to - from) =~= chars@.subrange(from as int, to as int));
                assert(rest.skip(to - from + 1) =~= s@.skip(to + 1));
                assert(texts(out@) =~= texts(before).push(rest.take(to - from)));
                assert(texts(out@) + split(s@.skip(to + 1), c) =~= texts(before) + (seq![
                    rest.take(to - from),
                ] + split(s@.skip(to + 1), c)));
            }
            from = to + 1;
        }
        to = to + 1;
    }
    let ghost rest = s@.skip(from as int);
    let ghost before = out@;
    out.push(string_of(&chars, from, to));
    proof {
        assert forall|i: int| 0 <= i < rest.len() implies rest[i] != c by {
            assert(rest[i] == chars@[from + i]);
        }
        lemma_first_index_unique(rest, c, rest.len() as int);
        assert(chars@.subrange(from as int, to as int) =~= rest);
        assert(texts(out@) =~= texts(before) + seq![rest]);
    }
    out
}

/// The lines of `s`.
pub fn lines_of(s: &str) -> (r: Vec<String>)
    ensures
        texts(r@) == split_lines(s@),
{
    let chars = chars_of(s);
    let mut out: Vec<String> = Vec::new();
    let mut from: usize = 0;
    proof {
        assert(s@.skip(0) =~= s@);
        assert(texts(out@) + split_lines(s@) =~= split_lines(s@));
    }
    while from < chars.len()
        invariant
            from <= chars@.len(),
            chars@ == s@,
            texts(out@) + split_lines(s@.skip(from as int)) == split_lines(s@),
        decreases chars@.len() - from,
    {
        let mut to: usize = from;
        while to < chars.len() && chars[to] != '\n'
            invariant
                from <= to <= chars@.len(),
                forall|i: int| from <= i < to ==> chars@[i] != '\n',
            decreases chars@.len() - to,
        {
            to = to + 1;
        }
        let ghost rest = s@.skip(from as int);
        let ghost before = out@;
        proof {
            assert forall|i: int| 0 <= i < to - from implies rest[i] != '\n' by {
                assert(rest[i] == chars@[from + i]);
            }
            if to < chars@.len() {
                assert(rest[to - from] == chars@[to as int]);
            }
            lemma_first_index_unique(rest, '\n', to - from);
        }
        if to < chars.len() {
            let mut end: usize = to;
            if end > from && chars[end - 1] == '\r' {
                end = end - 1;
            }
            out.push(string_of(&chars, from, end));
            proof {
                let line = rest.take(to - from);
                assert(line =~= chars@.subrange(from as int, to as int));
                if to > from {
                    assert(line.last() == chars@[to - 1]);
                    assert(line.drop_last() =~= chars@.subrange(from as int, to - 1));
                }
                assert(out@.last()@ == without_return(line));
                assert(rest.skip(to - from + 1) =~= s@.skip(to + 1));
                assert(texts(out@) =~= texts(before).push(without_return(line)));
                assert(texts(out@) + split_lines(s@.skip(to + 1)) =~= texts(before) + (seq![
                    without_return(line),
                ] + split_lines(s@.skip(to + 1))));
            }
            from = to + 1;
        } else {
            out.push(string_of(&chars, from, to));
            proof {
                assert(chars@.subrange(from as int, to as int) =~= rest);
                assert(texts(out@) =~= texts(before).push(rest));
                assert(s@.skip(to as int).len() == 0);
                assert(texts(out@) + split_lines(s@.skip(to as int)) =~= texts(before) + seq![rest]);
            }
            from = to;
        }
    }
    proof {
        assert(s@.skip(from as int).len() == 0);
        assert(texts(out@) + Seq::<Seq<char>>::empty() =~= texts(out@));
    }
    out
}

/// A first line can be cut off.
pub proof fn lemma_first_line(line: Seq<char>, rest: Seq<char>)
    requires
        !line.contains('\n'),
    ensures
        split_lines(line + "\n"@ + rest) == seq![without_return(line)] + split_lines(rest),
{
    reveal_strlit("\n");
    let all = line + "\n"@ + rest;
    assert forall|i: int| 0 <= i < line.len() implies all[i] != '\n' by {
        assert(all[i] == line[i]);
        assert(line.contains(line[i]));
    }
    assert(all[line.len() as int] == '\n');
    lemma_first_index_unique(all, '\n', line.len() as int);
    assert(all.take(line.len() as int) =~= line);
    assert(all.skip(line.len() as int + 1) =~= rest);
}

/// A first part can be cut off.
pub proof fn lemma_terminated_front(parts: Seq<Seq<char>>, end: Seq<char>)
    requires
        parts.len() > 0,
    ensures
        terminated(parts, end) == parts[0] + end + terminated(parts.drop_first(), end),
    decreases parts.len(),
{
    let rest = parts.drop_first();
    if parts.len() == 1 {
        assert(terminated(parts.drop_last(), end) =~= Seq::<char>::empty());
        assert(terminated(rest, end) =~= Seq::<char>::empty());
        assert(terminated(parts, end) =~= parts[0] + end + terminated(rest, end));
    } else {
        let front = parts.drop_last();
        lemma_terminated_front(front, end);
        assert(front.drop_first() =~= rest.drop_last());
        assert(front[0] == parts[0]);
        assert(rest.last() == parts.last());
        assert(terminated(parts, end) =~= parts[0] + end + terminated(rest, end));
    }
}

/// Parts that hold no line feed, and none of which ends with a carriage return,
/// are the lines of the text that has each of them followed by a line feed.
pub proof fn lemma_lines_of_terminated(parts: Seq<Seq<char>>)
    requires
        forall|i: int|
            0 <= i < parts.len() ==> !(#[trigger] parts[i]).contains('\n') && without_return(parts[i])
                == parts[i],
    ensures
        split_lines(terminated(parts, "\n"@)) == parts,
    decreases parts.len(),
{
    if parts.len() == 0 {
        assert(split_lines(terminated(parts, "\n"@)) =~= parts);
    } else {
        let rest = parts.drop_first();
        lemma_terminated_front(parts, "\n"@);
        assert(!parts[0].contains('\n'));
        lemma_first_line(parts[0], terminated(rest, "\n"@));
        assert forall|i: int| 0 <= i < rest.len() implies !(#[trigger] rest[i]).contains('\n')
            && without_return(rest[i]) == rest[i] by {
            assert(rest[i] == parts[i + 1]);
        }
        lemma_lines_of_terminated(rest);
        assert(seq![parts[0]] + rest =~= parts);
    }
}

/// What is not blank at its end does not end with a carriage return.
pub proof fn lemma_trimmed_has_no_return(s: Seq<char>)
    requires
        trimmed_end(s) == s,
    ensures
        without_return(s) == s,
        s.len() > 0 ==> !is_white_space(s.last()),
{
    if s.len() > 0 && is_white_space(s.last()) {
        lemma_trimmed_end_is_shorter(s.drop_last());
    }
}

proof fn lemma_trimmed_start_is_shorter(s: Seq<char>)
    ensures
        trimmed_start(s).len() <= s.len(),
        trimmed_start(s).len() == s.len() ==> trimmed_start(s) == s,
    decreases s.len(),
{
    if s.len() > 0 && is_white_space(s[0]) {
        lemma_trimmed_start_is_shorter(s.drop_first());
    }
}

/// What has no white space around it has none before it and none behind it.
pub proof fn lemma_trimmed_parts(s: Seq<char>)
    requires
        trimmed(s) == s,
    ensures
        trimmed_start(s) == s,
        trimmed_end(s) == s,
{
    lemma_trimmed_start_is_shorter(s);
    lemma_trimmed_end_is_shorter(trimmed_start(s));
}

proof fn lemma_trimmed_end_is_shorter(s: Seq<char>)
    ensures
        trimmed_end(s).len() <= s.len(),
    decreases s.len(),
{
    if s.len() > 0 && is_white_space(s.last()) {
        lemma_trimmed_end_is_shorter(s.drop_last());
    }
}

/// A first part can be cut off.
pub proof fn lemma_joined_front(parts: Seq<Seq<char>>, sep: Seq<char>)
    requires
        parts.len() > 1,
    ensures
        joined(parts, sep) == parts[0] + sep + joined(parts.drop_first(), sep),
    decreases parts.len(),
{
    let rest = parts.drop_first();
    let front = parts.drop_last();
    if parts.len() == 2 {
        assert(front =~= seq![parts[0]]);
        assert(rest =~= seq![parts[1]]);
        assert(joined(front, sep) == parts[0]);
        assert(joined(rest, sep) == parts[1]);
        assert(joined(parts, sep) =~= parts[0] + sep + joined(rest, sep));
    } else {
        lemma_joined_front(front, sep);
        assert(front.drop_first() =~= rest.drop_last());
        assert(front[0] == parts[0]);
        assert(rest.last() == parts.last());
        assert(joined(parts, sep) =~= parts[0] + sep + joined(rest, sep));
    }
}

/// Cutting undoes joining, where no part holds the character in between.
pub proof fn lemma_split_joined(parts: Seq<Seq<char>>, sep: Seq<char>, c: char)
    requires
        parts.len() > 0,
        sep == seq![c],
        forall|i: int| 0 <= i < parts.len() ==> !(#[trigger] parts[i]).contains(c),
    ensures
        split(joined(parts, sep), c) == parts,
    decreases parts.len(),
{
    let all = joined(parts, sep);
    let first = parts[0];
    assert(!first.contains(c));
    assert forall|i: int| 0 <= i < first.len() implies first[i] != c by {
        assert(first.contains(first[i]));
    }
    if parts.len() == 1 {
        assert(all == first);
        lemma_first_index_unique(all, c, all.len() as int);
        assert(seq![all] =~= parts);
    } else {
        let rest = parts.drop_first();
        lemma_joined_front(parts, sep);
        assert forall|i: int| 0 <= i < first.len() implies all[i] != c by {
            assert(all[i] == first[i]);
        }
        assert(all[first.len() as int] == c);
        lemma_first_index_unique(all, c, first.len() as int);
        assert(all.take(first.len() as int) =~= first);
        assert(all.skip(first.len() as int + 1) =~= joined(rest, sep));
        assert forall|i: int| 0 <= i < rest.len() implies !(#[trigger] rest[i]).contains(c) by {
            assert(rest[i] == parts[i + 1]);
        }
        lemma_split_joined(rest, sep, c);
        assert(seq![first] + rest =~= parts);
    }
}

/// A text that is filled up begins as it is, goes on with spaces only, and is as
/// wide as was wanted, or as the text itself where that is wider.
pub proof fn law_padding_only_adds_spaces(s: Seq<char>, width: nat)
    ensures
        padded(s, width).len() == (if s.len() < width {
            width
        } else {
            s.len()
        }),
        padded(s, width).take(s.len() as int) == s,
        forall|i: int| s.len() <= i < padded(s, width).len() ==> padded(s, width)[i] == ' ',
{
    assert(padded(s, width).take(s.len() as int) =~= s);
}

/// The number that decimal digits stand for.
pub open spec fn value_of(digits: Seq<char>) -> int
    decreases digits.len(),
{
    if digits.len() == 0 {
        0
    } else {
        value_of(digits.drop_last()) * 10 + (digits.last() as int - '0' as int)
    }
}

/// The decimal digits of a number stand for that number.
pub proof fn law_decimal_is_read_back(n: nat)
    ensures
        value_of(decimal(n)) == n,
        decimal(n).len() > 0,
        n > 0 ==> decimal(n)[0] != '0',
    decreases n,
{
    reveal_with_fuel(value_of, 2);
    if n < 10 {
        assert(decimal(n).drop_last() =~= Seq::<char>::empty());
    } else {
        law_decimal_is_read_back(n / 10);
        assert(decimal(n).drop_last() =~= decimal(n / 10));
        assert(decimal(n)[0] == decimal(n / 10)[0]);
    }
}

/// Cutting a text at a character loses nothing but that character, and leaves it in
/// no part.
pub proof fn law_split_is_undone_by_joining(s: Seq<char>, c: char)
    ensures
        split(s, c).len() > 0,
        joined(split(s, c), seq![c]) == s,
        forall|i: int| 0 <= i < split(s, c).len() ==> !(#[trigger] split(s, c)[i]).contains(c),
    decreases s.len(),
{
    let k = first_index(s, c);
    lemma_first_index(s, c);
    let parts = split(s, c);
    if 0 <= k < s.len() {
        let rest = s.skip(k + 1);
        law_split_is_undone_by_joining(rest, c);
        let more = split(rest, c);
        assert(parts.drop_first() =~= more);
        lemma_joined_front(parts, seq![c]);
        assert(s =~= s.take(k) + seq![c] + rest);
        assert forall|i: int| 0 <= i < parts.len() implies !(#[trigger] parts[i]).contains(c) by {
            if i > 0 {
                assert(parts[i] == more[i - 1]);
            } else {
                assert(parts[0] == s.take(k));
            }
        }
    }
}

/// White space is the tab, the line feed, the vertical tab, the form feed, the
/// carriage return, the space, the next line, the no-break space, and the spaces
/// and separators of other scripts, and nothing else.
pub proof fn law_white_space(c: char)
    ensures
        is_white_space(c) <==> seq![
            '\t',
            '\n',
            '\u{000B}',
            '\u{000C}',
            '\r',
            ' ',
            '\u{0085}',
            '\u{00A0}',
            '\u{1680}',
            '\u{2000}',
            '\u{2001}',
            '\u{2002}',
            '\u{2003}',
            '\u{2004}',
            '\u{2005}',
            '\u{2006}',
            '\u{2007}',
            '\u{2008}',
            '\u{2009}',
            '\u{200A}',
            '\u{2028}',
            '\u{2029}',
            '\u{202F}',
            '\u{205F}',
            '\u{3000}',
        ].contains(c),
{
    let all = seq![
        '\t',
        '\n',
        '\u{000B}',
        '\u{000C}',
        '\r',
        ' ',
        '\u{0085}',
        '\u{00A0}',
        '\u{1680}',
        '\u{2000}',
        '\u{2001}',
        '\u{2002}',
        '\u{2003}',
        '\u{2004}',
        '\u{2005}',
        '\u{2006}',
        '\u{2007}',
        '\u{2008}',
        '\u{2009}',
        '\u{200A}',
        '\u{2028}',
        '\u{2029}',
        '\u{202F}',
        '\u{205F}',
        '\u{3000}',
    ];
    assert(all.len() == 25);
    if is_white_space(c) {
        let n = c as int;
        let i: int = if n <= 0x0D {
            n - 0x09
        } else if n == 0x20 {
            5
        } else if n == 0x85 {
            6
        } else if n == 0xA0 {
            7
        } else if n == 0x1680 {
            8
        } else if n <= 0x200A {
            n - 0x2000 + 9
        } else if n == 0x2028 {
            20
        } else if n == 0x2029 {
            21
        } else if n == 0x202F {
            22
        } else if n == 0x205F {
            23
        } else {
            24
        };
        assert(all[i] == c);
    }
    if all.contains(c) {
        let i = choose|i: int| 0 <= i < all.len() && all[i] == c;
        assert(i < 25);
    }
}

} // verus!
