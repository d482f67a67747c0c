//! Text primitives the pipeline is built on: substring search, trimming,
//! UTF-8 decoding and decimal rendering, each with its meaning as a function
//! on sequences of characters.

use vstd::prelude::*;

verus! {

/// The texts of `items`, in order.
pub open spec fn texts(items: Seq<String>) -> Seq<Seq<char>> {
    items.map_values(|s: String| s@)
}

/// A copy of `items` with the same texts in the same order.
pub fn copy_texts(items: &Vec<String>) -> (copy: Vec<String>)
    ensures
        texts(copy@) == texts(items@),
{
    let mut copy: Vec<String> = Vec::new();
    let mut i: usize = 0;
    while i < items.len()
        invariant
            i <= items.len(),
            copy.len() == i,
            forall|k: int| 0 <= k < i ==> copy[k]@ == items[k]@,
        decreases items.len() - i,
    {
        copy.push(items[i].clone());
        i = i + 1;
    }
    assert(texts(copy@) =~= texts(items@));
    copy
}

/// `needle` stands in `hay` at position `at`.
pub open spec fn occurs_at(needle: Seq<char>, hay: Seq<char>, at: int) -> bool {
    &&& 0 <= at
    &&& at + needle.len() <= hay.len()
    &&& hay.subrange(at, at + needle.len()) == needle
}

/// `needle` is a contiguous part of `hay`. The empty text is part of every text.
pub open spec fn occurs_in(needle: Seq<char>, hay: Seq<char>) -> bool {
    exists|at: int| occurs_at(needle, hay, at)
}

/// Trusted: `str::contains` with a string pattern. The contract restates its
/// documentation: the answer is whether the pattern matches a sub-slice of
/// the text. Nothing here checks the search itself.
#[verifier::external_body]
pub(crate) fn contains_text(hay: &str, needle: &str) -> (found: bool)
    ensures
        found == occurs_in(needle@, hay@),
{
    hay.contains(needle)
}

/// The character has the Unicode property White_Space: the controls from
/// tab to carriage return, the space, next line, the no-break spaces, the
/// Ogham space mark, the spaces of fixed width, the line and paragraph
/// separators, the medium mathematical space and the ideographic space.
pub open spec fn white_space(c: char) -> bool {
    let code = c as u32;
    ||| 0x0009 <= code <= 0x000D
    ||| code == 0x0020
    ||| code == 0x0085
    ||| code == 0x00A0
    ||| code == 0x1680
    ||| 0x2000 <= code <= 0x200A
    ||| code == 0x2028
    ||| code == 0x2029
    ||| code == 0x202F
    ||| code == 0x205F
    ||| code == 0x3000
}

/// Trusted: `char::is_whitespace`, which answers whether the character has
/// the property White_Space of the Unicode character database. The contract
/// writes that property out.
#[verifier::external_body]
pub(crate) fn is_white_space(c: char) -> (b: bool)
    ensures
        b == white_space(c),
{
    c.is_whitespace()
}

/// Index of the first character at or after `from` that is not white space,
/// or the length of `s` if there is none.
pub open spec fn first_visible(s: Seq<char>, from: int) -> int
    decreases s.len() - from,
{
    if from >= s.len() {
        s.len() as int
    } else if !white_space(s[from]) {
        from
    } else {
        first_visible(s, from + 1)
    }
}

/// One past the last character before `to` and at or after `floor` that is
/// not white space, or `floor` if there is none.
pub open spec fn visible_end(s: Seq<char>, floor: int, to: int) -> int
    decreases to - floor,
{
    if to <= floor {
        floor
    } else if !white_space(s[to - 1]) {
        to
    } else {
        visible_end(s, floor, to - 1)
    }
}

/// `s` without its leading and trailing white space.
pub open spec fn trimmed(s: Seq<char>) -> Seq<char> {
    let start = first_visible(s, 0);
    s.subrange(start, visible_end(s, start, s.len() as int))
}

/// `first_visible` stays within the text and never moves backwards.
pub proof fn lemma_first_visible_bounds(s: Seq<char>, from: int)
    requires
        0 <= from <= s.len(),
    ensures
        from <= first_visible(s, from) <= s.len(),
    decreases s.len() - from,
{
    if from < s.len() && white_space(s[from]) {
        lemma_first_visible_bounds(s, from + 1);
    }
}

/// `visible_end` stays between its floor and its starting point.
pub proof fn lemma_visible_end_bounds(s: Seq<char>, floor: int, to: int)
    requires
        0 <= floor <= to <= s.len(),
    ensures
        floor <= visible_end(s, floor, to) <= to,
    decreases to - floor,
{
    if to > floor && white_space(s[to - 1]) {
        lemma_visible_end_bounds(s, floor, to - 1);
    }
}

/// Trimming leaves a text that neither starts nor ends with white space, and
/// trimming it again changes nothing.
pub proof fn lemma_trimmed_is_tight(s: Seq<char>)
    ensures
        trimmed(s).len() > 0 ==> !white_space(trimmed(s).first()) && !white_space(
            trimmed(s).last(),
        ),
        trimmed(trimmed(s)) == trimmed(s),
{
    let start = first_visible(s, 0);
    lemma_first_visible_bounds(s, 0);
    let end = visible_end(s, start, s.len() as int);
    lemma_visible_end_bounds(s, start, s.len() as int);
    let t = trimmed(s);
    if t.len() > 0 {
        lemma_first_visible_stops(s, 0);
        lemma_visible_end_stops(s, start, s.len() as int);
        assert(t.first() == s[start]);
        assert(t.last() == s[end - 1]);
        assert(first_visible(t, 0) == 0);
        assert(visible_end(t, 0, t.len() as int) == t.len());
        assert(t.subrange(0, t.len() as int) =~= t);
    } else {
        assert(first_visible(t, 0) == 0);
        assert(visible_end(t, 0, 0) == 0);
        assert(t.subrange(0, 0) =~= t);
    }
}

/// Where `first_visible` stops short of the end, the character there is not
/// white space.
pub proof fn lemma_first_visible_stops(s: Seq<char>, from: int)
    requires
        0 <= from <= s.len(),
    ensures
        first_visible(s, from) < s.len() ==> !white_space(s[first_visible(s, from)]),
    decreases s.len() - from,
{
    if from < s.len() && white_space(s[from]) {
        lemma_first_visible_stops(s, from + 1);
    }
}

/// Where `visible_end` stops above its floor, the character before it is not
/// white space.
pub proof fn lemma_visible_end_stops(s: Seq<char>, floor: int, to: int)
    requires
        0 <= floor <= to <= s.len(),
    ensures
        visible_end(s, floor, to) > floor ==> !white_space(s[visible_end(s, floor, to) - 1]),
    decreases to - floor,
{
    if to > floor && white_space(s[to - 1]) {
        lemma_visible_end_stops(s, floor, to - 1);
    }
}

/// A text that neither starts nor ends with white space is its own trimmed
/// text.
pub proof fn lemma_tight_text_is_kept(s: Seq<char>)
    requires
        s.len() > 0 ==> !white_space(s.first()) && !white_space(s.last()),
    ensures
        trimmed(s) == s,
{
    if s.len() > 0 {
        assert(first_visible(s, 0) == 0);
        assert(visible_end(s, 0, s.len() as int) == s.len());
        assert(s.subrange(0, s.len() as int) =~= s);
    } else {
        assert(first_visible(s, 0) == 0);
        assert(visible_end(s, 0, 0) == 0);
        assert(s.subrange(0, 0) =~= s);
    }
}

/// Copy of `s` without leading and trailing white space.
pub fn trim_text(s: &str) -> (t: String)
    ensures
        t@ == trimmed(s@),
{
    let n = s.unicode_len();
    let mut start: usize = 0;
    while start < n && is_white_space(s.get_char(start))
        invariant
            n == s@.len(),
            start <= n,
            first_visible(s@, 0) == first_visible(s@, start as int),
        decreases n - start,
    {
        start = start + 1;
    }
    let mut end: usize = n;
    while end > start && is_white_space(s.get_char(end - 1))
        invariant
            n == s@.len(),
            start <= end <= n,
            visible_end(s@, start as int, n as int) == visible_end(s@, start as int, end as int),
        decreases end - start,
    {
        end = end - 1;
    }
    String::from_str(s.substring_char(start, end))
}

/// The character that writes the digit `d`.
pub open spec fn digit_char(d: int) -> char {
    if d == 0 {
        '0'
    } else if d == 1 {
        '1'
    } else if d == 2 {
        '2'
    } else if d == 3 {
        '3'
    } else if d == 4 {
        '4'
    } else if d == 5 {
        '5'
    } else if d == 6 {
        '6'
    } else if d == 7 {
        '7'
    } else if d == 8 {
        '8'
    } else {
        '9'
    }
}

/// `n` written in base ten, without sign or leading zeros.
pub open spec fn decimal(n: nat) -> Seq<char>
    decreases n,
{
    if n < 10 {
        seq![digit_char(n as int)]
    } else {
        decimal(n / 10).push(digit_char((n % 10) as int))
    }
}

fn digit_text(d: u64) -> (s: &'static str)
    requires
        d < 10,
    ensures
        s@ == seq![digit_char(d as int)],
{
    proof {
        reveal_strlit("0");
        reveal_strlit("1");
        reveal_strlit("2");
        reveal_strlit("3");
        reveal_strlit("4");
        reveal_strlit("5");
        reveal_strlit("6");
        reveal_strlit("7");
        reveal_strlit("8");
        reveal_strlit("9");
    }
    let s = if d == 0 {
        "0"
    } else if d == 1 {
        "1"
    } else if d == 2 {
        "2"
    } else if d == 3 {
        "3"
    } else if d == 4 {
        "4"
    } else if d == 5 {
        "5"
    } else if d == 6 {
        "6"
    } else if d == 7 {
        "7"
    } else if d == 8 {
        "8"
    } else {
        "9"
    };
    assert(s@ =~= seq![digit_char(d as int)]);
    s
}

/// `n` in base ten.
pub fn decimal_text(n: u64) -> (s: String)
    ensures
        s@ == decimal(n as nat),
{
    let mut out = String::from_str(digit_text(n % 10));
    let mut rest: u64 = n / 10;
    proof {
        if n >= 10 {
            assert(decimal(n as nat) =~= decimal(rest as nat) + out@);
        }
    }
    while rest > 0
        invariant
            rest > 0 ==> decimal(n as nat) == decimal(rest as nat) + out@,
            rest == 0 ==> decimal(n as nat) == out@,
        decreases rest,
    {
        let head = String::from_str(digit_text(rest % 10));
        let ghost before = out@;
        out = head.concat(out.as_str());
        let ghost whole = rest;
        rest = rest / 10;
        proof {
            if whole >= 10 {
                assert(decimal(whole as nat) == decimal(rest as nat).push(
                    digit_char((whole % 10) as int),
                ));
                assert(decimal(n as nat) =~= decimal(rest as nat) + out@);
            } else {
                assert(decimal(n as nat) =~= out@);
            }
        }
    }
    out
}

/// Trusted: `String::from_utf8`. The contract restates its documentation:
/// the bytes are accepted exactly when they are well-formed UTF-8, and the
/// text is then the one that these bytes encode.
#[verifier::external_body]
pub(crate) fn utf8_text(bytes: Vec<u8>) -> (text: Option<String>)
    ensures
        text is Some <==> vstd::utf8::valid_utf8(bytes@),
        text matches Some(t) ==> vstd::utf8::encode_utf8(t@) == bytes@,
{
    String::from_utf8(bytes).ok()
}

} // verus!
