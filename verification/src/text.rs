//! Text as a sequence of characters: white space, trimming, lines and order.

use vstd::prelude::*;
use vstd::string::StringSliceAdditionalSpecFns;
use vstd::utf8::valid_utf8;

verus! {

/// Whether `c` is white space: the code points that carry Unicode's
/// `White_Space` property.
pub open spec fn is_whitespace(c: char) -> bool {
    let u = c as u32;
    ||| 0x09 <= u <= 0x0D
    ||| u == 0x20
    ||| u == 0x85
    ||| u == 0xA0
    ||| u == 0x1680
    ||| 0x2000 <= u <= 0x200A
    ||| u == 0x2028
    ||| u == 0x2029
    ||| u == 0x202F
    ||| u == 0x205F
    ||| u == 0x3000
}

/// `s` without the white space it begins with.
pub open spec fn trim_start(s: Seq<char>) -> Seq<char>
    decreases s.len(),
{
    if s.len() > 0 && is_whitespace(s.first()) {
        trim_start(s.drop_first())
    } else {
        s
    }
}

/// `s` without the white space it ends with.
pub open spec fn trim_end(s: Seq<char>) -> Seq<char>
    decreases s.len(),
{
    if s.len() > 0 && is_whitespace(s.last()) {
        trim_end(s.drop_last())
    } else {
        s
    }
}

/// `s` without the white space at either end.
pub open spec fn trim(s: Seq<char>) -> Seq<char> {
    trim_end(trim_start(s))
}

/// How many characters of `s` stand before its first line feed: all of them
/// where it has none.
pub open spec fn first_line_len(s: Seq<char>) -> int
    decreases s.len(),
{
    if s.len() == 0 || s.first() == '\n' {
        0
    } else {
        1 + first_line_len(s.drop_first())
    }
}

/// What follows the first line of `s` and the line feed that ends it.
pub open spec fn after_first_line(s: Seq<char>) -> Seq<char> {
    if first_line_len(s) < s.len() {
        s.subrange(first_line_len(s) + 1, s.len() as int)
    } else {
        Seq::empty()
    }
}

/// The lines of `s`: the stretches between its line feeds. A line feed at
/// the very end starts no further line.
pub open spec fn lines(s: Seq<char>) -> Seq<Seq<char>>
    decreases s.len(),
    via lines_decreases
{
    if s.len() == 0 {
        Seq::empty()
    } else {
        seq![s.subrange(0, first_line_len(s))] + lines(after_first_line(s))
    }
}

#[via_fn]
proof fn lines_decreases(s: Seq<char>) {
    if s.len() != 0 {
        lemma_first_line_len_bounds(s);
    }
}

/// The first line ends inside the text or at its end.
pub proof fn lemma_first_line_len_bounds(s: Seq<char>)
    ensures
        0 <= first_line_len(s) <= s.len(),
        first_line_len(s) < s.len() ==> s[first_line_len(s)] == '\n',
        forall|i: int| 0 <= i < first_line_len(s) ==> s[i] != '\n',
    decreases s.len(),
{
    if s.len() == 0 || s.first() == '\n' {
    } else {
        let rest = s.drop_first();
        lemma_first_line_len_bounds(rest);
        assert forall|i: int| 0 <= i < first_line_len(s) implies s[i] != '\n' by {
            if i > 0 {
                assert(s[i] == rest[i - 1]);
            }
        }
    }
}

/// Whether `a` comes before `b` in the order of `str`: character by
/// character, by code point, a proper prefix first.
pub open spec fn text_lt(a: Seq<char>, b: Seq<char>) -> bool
    decreases a.len(),
{
    if b.len() == 0 {
        false
    } else if a.len() == 0 {
        true
    } else if a[0] != b[0] {
        (a[0] as u32) < (b[0] as u32)
    } else {
        text_lt(a.drop_first(), b.drop_first())
    }
}

/// No text comes before itself.
pub proof fn lemma_text_lt_irreflexive(a: Seq<char>)
    ensures
        !text_lt(a, a),
    decreases a.len(),
{
    if a.len() > 0 {
        lemma_text_lt_irreflexive(a.drop_first());
    }
}

/// Of two texts, one at most comes before the other.
pub proof fn lemma_text_lt_asymmetric(a: Seq<char>, b: Seq<char>)
    requires
        text_lt(a, b),
    ensures
        !text_lt(b, a),
    decreases a.len(),
{
    if a.len() > 0 && b.len() > 0 && a[0] == b[0] {
        lemma_text_lt_asymmetric(a.drop_first(), b.drop_first());
    }
}

/// Tests whether `c` is white space.
pub fn char_is_whitespace(c: char) -> (r: bool)
    ensures
        r == is_whitespace(c),
{
    let u: u32 = c as u32;
    (0x09 <= u && u <= 0x0D) || u == 0x20 || u == 0x85 || u == 0xA0 || u == 0x1680 || (0x2000 <= u
        && u <= 0x200A) || u == 0x2028 || u == 0x2029 || u == 0x202F || u == 0x205F || u == 0x3000
}

/// The characters of `s`, in order.
pub fn to_chars(s: &str) -> (v: Vec<char>)
    ensures
        v@ == s@,
{
    let mut v: Vec<char> = Vec::new();
    for c in it: s.chars()
        invariant
            v@ == it.seq().take(it.index() as int),
            it.seq() == s@,
    {
        v.push(c);
    }
    v
}

/// `String::from_iter` over the characters of a slice: the text that is made
/// of these characters, in this order.
#[verifier::external_body]
pub(crate) fn string_from_chars(chars: &[char]) -> (s: String)
    ensures
        s@ == chars@,
{
    String::from_iter(chars)
}

/// `std::str::from_utf8`: the text that the bytes are the UTF-8 encoding of,
/// or `None` where they are not valid UTF-8.
#[verifier::external_body]
pub(crate) fn str_from_utf8(bytes: &[u8]) -> (text: Option<&str>)
    ensures
        match text {
            Some(t) => valid_utf8(bytes@) && t.spec_bytes() == bytes@,
            None => !valid_utf8(bytes@),
        },
{
    std::str::from_utf8(bytes).ok()
}

/// Where `trim` of the text begins and ends.
pub fn trim_range(chars: &[char]) -> (r: (usize, usize))
    ensures
        r.0 <= r.1 <= chars.len(),
        chars@.subrange(r.0 as int, r.1 as int) == trim(chars@),
{
    let n = chars.len();
    let mut a: usize = 0;
    assert(chars@.subrange(0, n as int) == chars@);
    while a < n && char_is_whitespace(chars[a])
        invariant
            a <= n == chars.len(),
            trim_start(chars@) == trim_start(chars@.subrange(a as int, n as int)),
        decreases n - a,
    {
        assert(chars@.subrange(a as int, n as int).drop_first() == chars@.subrange(
            a + 1,
            n as int,
        ));
        a = a + 1;
    }
    assert(trim_start(chars@) == chars@.subrange(a as int, n as int));
    let mut b: usize = n;
    while b > a && char_is_whitespace(chars[b - 1])
        invariant
            a <= b <= n == chars.len(),
            trim(chars@) == trim_end(chars@.subrange(a as int, b as int)),
        decreases b - a,
    {
        assert(chars@.subrange(a as int, b as int).drop_last() == chars@.subrange(
            a as int,
            b - 1,
        ));
        b = b - 1;
    }
    (a, b)
}

/// Where the line that begins at `pos` ends: at the next line feed, or at
/// the end of the text.
pub fn line_end(chars: &[char], pos: usize) -> (end: usize)
    requires
        pos <= chars.len(),
    ensures
        pos <= end <= chars.len(),
        end - pos == first_line_len(chars@.subrange(pos as int, chars.len() as int)),
{
    let n = chars.len();
    let mut end: usize = pos;
    while end < n && chars[end] != '\n'
        invariant
            pos <= end <= n == chars.len(),
            first_line_len(chars@.subrange(pos as int, n as int)) == (end - pos) + first_line_len(
                chars@.subrange(end as int, n as int),
            ),
        decreases n - end,
    {
        assert(chars@.subrange(end as int, n as int).drop_first() == chars@.subrange(
            end + 1,
            n as int,
        ));
        end = end + 1;
    }
    end
}

} // verus!
