//! Texts as sequences of characters.

use crate::bytes::{find_zero, zero_from};
use vstd::prelude::*;
use vstd::slice::slice_subrange;
use vstd::utf8::{decode_utf8, encode_utf8, valid_utf8};

verus! {

/// Reads bytes as UTF-8 text.
///
/// Calls `std::str::from_utf8`. Claimed of it: it accepts exactly the valid
/// UTF-8 sequences and gives the characters that they encode.
#[verifier::external_body]
pub(crate) fn utf8_text(b: &[u8]) -> (r: Option<&str>)
    ensures
        match r {
            Some(s) => valid_utf8(b@) && s@ == decode_utf8(b@),
            None => !valid_utf8(b@),
        },
{
    std::str::from_utf8(b).ok()
}

/// What bytes read as when they are taken for UTF-8 text and whatever is not is
/// replaced.
pub uninterp spec fn lossy_text(b: Seq<u8>) -> Seq<char>;

/// Reads bytes as UTF-8 text, replacing what is not.
///
/// Calls `String::from_utf8_lossy`. Claimed of it: the text depends on the bytes
/// alone, and valid UTF-8 reads as the characters that it encodes.
#[verifier::external_body]
pub(crate) fn read_lossy(b: &[u8]) -> (r: String)
    ensures
        r@ == lossy_text(b@),
        valid_utf8(b@) ==> r@ == decode_utf8(b@),
{
    String::from_utf8_lossy(b).into_owned()
}

proof fn encoding_is_injective(a: Seq<char>, b: Seq<char>)
    requires
        encode_utf8(a) == encode_utf8(b),
    ensures
        a == b,
{
    vstd::utf8::encode_utf8_decode_utf8(a);
    vstd::utf8::encode_utf8_decode_utf8(b);
}

/// Whether two byte slices hold the same bytes.
pub fn same_bytes(a: &[u8], b: &[u8]) -> (r: bool)
    ensures
        r == (a@ == b@),
{
    if a.len() != b.len() {
        return false;
    }
    let mut i: usize = 0;
    while i < a.len()
        invariant
            i <= a.len(),
            a@.len() == b@.len(),
            forall|k: int| 0 <= k < i ==> a@[k] == b@[k],
        decreases a.len() - i,
    {
        if a[i] != b[i] {
            return false;
        }
        i += 1;
    }
    assert(a@ =~= b@);
    true
}

/// Whether two texts are the same.
pub fn same_text(a: &str, b: &str) -> (r: bool)
    ensures
        r == (a@ == b@),
{
    let r = same_bytes(a.as_bytes(), b.as_bytes());
    proof {
        if r {
            encoding_is_injective(a@, b@);
        }
    }
    r
}

/// The characters of a text.
pub fn chars_of(s: &str) -> (r: Vec<char>)
    ensures
        r@ == s@,
{
    let mut out: Vec<char> = Vec::new();
    for c in it: s.chars()
        invariant
            out@ == s@.take(it.index@),
            it.seq() == s@,
    {
        proof {
            assert(s@.take(it.index@ + 1) =~= s@.take(it.index@).push(s@[it.index@]));
        }
        out.push(c);
    }
    assert(s@.take(s@.len() as int) =~= s@);
    out
}

/// Whether `part` stands in `whole` at `at`.
pub open spec fn stands_at(whole: Seq<char>, part: Seq<char>, at: int) -> bool {
    0 <= at && at + part.len() <= whole.len() && whole.subrange(at, at + part.len()) == part
}

/// Whether `part` stands somewhere in `whole`.
pub open spec fn contains(whole: Seq<char>, part: Seq<char>) -> bool {
    exists|at: int| stands_at(whole, part, at)
}

/// Whether `part` stands in `whole` at `at`.
pub fn text_stands_at(whole: &[char], part: &[char], at: usize) -> (r: bool)
    ensures
        r == stands_at(whole@, part@, at as int),
{
    if part.len() > whole.len() || at > whole.len() - part.len() {
        return false;
    }
    let mut i: usize = 0;
    while i < part.len()
        invariant
            i <= part@.len(),
            at + part@.len() <= whole@.len() <= usize::MAX,
            forall|k: int| 0 <= k < i ==> whole@[at + k] == part@[k],
        decreases part@.len() - i,
    {
        if whole[at + i] != part[i] {
            proof {
                assert(whole@.subrange(at as int, at + part@.len())[i as int] != part@[i as int]);
            }
            return false;
        }
        i += 1;
    }
    assert(whole@.subrange(at as int, at + part@.len()) =~= part@);
    true
}

/// Whether `part` stands somewhere in `whole`.
pub fn text_contains(whole: &str, part: &str) -> (r: bool)
    ensures
        r == contains(whole@, part@),
{
    let whole_chars = chars_of(whole);
    let part_chars = chars_of(part);
    let mut at: usize = 0;
    while at < whole_chars.len()
        invariant
            whole_chars@ == whole@,
            part_chars@ == part@,
            at <= whole_chars@.len(),
            forall|k: int| 0 <= k < at ==> !stands_at(whole@, part@, k),
        decreases whole_chars@.len() - at,
    {
        if text_stands_at(whole_chars.as_slice(), part_chars.as_slice(), at) {
            return true;
        }
        at += 1;
    }
    text_stands_at(whole_chars.as_slice(), part_chars.as_slice(), at)
}

/// The zero-terminated UTF-8 text at `off`, if there is one.
pub open spec fn terminated_text(b: Seq<u8>, off: int) -> Option<Seq<char>> {
    let end = zero_from(b, off);
    if off > b.len() || end >= b.len() || !valid_utf8(b.subrange(off, end)) {
        None
    } else {
        Some(decode_utf8(b.subrange(off, end)))
    }
}

/// A text that may be there, by its characters.
pub open spec fn text_view(r: Option<&str>) -> Option<Seq<char>> {
    match r {
        Some(s) => Some(s@),
        None => None,
    }
}

/// Reads the zero-terminated UTF-8 text at `off`.
pub fn read_terminated(b: &[u8], off: usize) -> (r: Option<&str>)
    ensures
        text_view(r) == terminated_text(b@, off as int),
{
    if off > b.len() {
        return None;
    }
    match find_zero(b, off) {
        Some(end) => utf8_text(slice_subrange(b, off, end)),
        None => None,
    }
}

/// The index of the first `c` from `from` on, or the length.
pub open spec fn first_char(s: Seq<char>, c: char, from: int) -> int
    decreases s.len() - from,
{
    if from >= s.len() || s[from] == c {
        from
    } else {
        first_char(s, c, from + 1)
    }
}

/// Finds the first `c` from `from` on. Gives the length where there is none.
pub fn find_char(s: &[char], c: char, from: usize) -> (r: usize)
    requires
        from <= s@.len(),
    ensures
        r == first_char(s@, c, from as int),
        from <= r <= s@.len(),
{
    let mut i: usize = from;
    while i < s.len()
        invariant
            from <= i <= s@.len(),
            first_char(s@, c, from as int) == first_char(s@, c, i as int),
        decreases s@.len() - i,
    {
        if s[i] == c {
            return i;
        }
        i += 1;
    }
    i
}

/// The first `c` lies where it says, with no `c` before it.
pub proof fn first_char_is_first(s: Seq<char>, c: char, from: int)
    requires
        0 <= from <= s.len(),
    ensures
        from <= first_char(s, c, from) <= s.len(),
        first_char(s, c, from) < s.len() ==> s[first_char(s, c, from)] == c,
        forall|i: int| from <= i < first_char(s, c, from) ==> s[i] != c,
    decreases s.len() - from,
{
    if from < s.len() && s[from] != c {
        first_char_is_first(s, c, from + 1);
    }
}

/// The parts of a text between separators.
pub open spec fn pieces(s: Seq<char>, c: char) -> Seq<Seq<char>>
    decreases s.len(),
    via pieces_decreases
{
    let at = first_char(s, c, 0);
    if at >= s.len() {
        seq![s]
    } else {
        seq![s.take(at)] + pieces(s.skip(at + 1), c)
    }
}

#[via_fn]
proof fn pieces_decreases(s: Seq<char>, c: char) {
    first_char_is_first(s, c, 0);
}

/// Whether a character is white space in Unicode.
pub open spec fn white(c: char) -> bool {
    ('\u{9}' <= c <= '\u{d}') || c == ' ' || c == '\u{85}' || c == '\u{a0}' || c == '\u{1680}' || (
    '\u{2000}' <= c <= '\u{200a}') || c == '\u{2028}' || c == '\u{2029}' || c == '\u{202f}' || c
        == '\u{205f}' || c == '\u{3000}'
}

/// Tests for Unicode white space.
pub fn is_white(c: char) -> (r: bool)
    ensures
        r == white(c),
{
    ('\u{9}' <= c && c <= '\u{d}') || c == ' ' || c == '\u{85}' || c == '\u{a0}' || c
        == '\u{1680}' || ('\u{2000}' <= c && c <= '\u{200a}') || c == '\u{2028}' || c
        == '\u{2029}' || c == '\u{202f}' || c == '\u{205f}' || c == '\u{3000}'
}

/// A text without white space at its start.
pub open spec fn trim_start(s: Seq<char>) -> Seq<char>
    decreases s.len(),
{
    if s.len() == 0 || !white(s[0]) {
        s
    } else {
        trim_start(s.drop_first())
    }
}

/// A text without white space at its end.
pub open spec fn trim_end(s: Seq<char>) -> Seq<char>
    decreases s.len(),
{
    if s.len() == 0 || !white(s.last()) {
        s
    } else {
        trim_end(s.drop_last())
    }
}

/// A text without white space at either end.
pub open spec fn trim(s: Seq<char>) -> Seq<char> {
    trim_end(trim_start(s))
}

/// Takes white space off both ends.
pub fn trimmed(s: &[char]) -> (r: &[char])
    ensures
        r@ == trim(s@),
{
    let mut start: usize = 0;
    assert(s@.skip(0) =~= s@);
    while start < s.len() && is_white(s[start])
        invariant
            start <= s@.len(),
            trim_start(s@) == trim_start(s@.skip(start as int)),
        decreases s@.len() - start,
    {
        assert(s@.skip(start as int).drop_first() =~= s@.skip(start + 1));
        start += 1;
    }
    let ghost kept = s@.skip(start as int);
    let mut end: usize = s.len();
    assert(s@.subrange(start as int, end as int) =~= kept);
    while end > start && is_white(s[end - 1])
        invariant
            start <= end <= s@.len(),
            trim_end(kept) == trim_end(s@.subrange(start as int, end as int)),
        decreases end,
    {
        assert(s@.subrange(start as int, end as int).drop_last() =~= s@.subrange(
            start as int,
            end - 1,
        ));
        end -= 1;
    }
    slice_subrange(s, start, end)
}

/// The code of a character, with upper-case ASCII letters taken as lower-case ones.
pub open spec fn folded(c: char) -> u32 {
    if 'A' <= c <= 'Z' {
        (c as u32 + 32) as u32
    } else {
        c as u32
    }
}

/// Whether two texts are the same when ASCII letters are compared without case.
pub open spec fn same_folded(a: Seq<char>, b: Seq<char>) -> bool {
    a.len() == b.len() && forall|i: int| 0 <= i < a.len() ==> #[trigger] folded(a[i]) == folded(b[i])
}

fn fold(c: char) -> (r: u32)
    ensures
        r == folded(c),
{
    if 'A' <= c && c <= 'Z' {
        c as u32 + 32
    } else {
        c as u32
    }
}

/// Compares two texts, ASCII letters without case.
pub fn equal_folded(a: &[char], text: &str) -> (r: bool)
    ensures
        r == same_folded(a@, text@),
{
    let b = chars_of(text);
    if a.len() != b.len() {
        return false;
    }
    let mut i: usize = 0;
    while i < a.len()
        invariant
            i <= a@.len(),
            b@ == text@,
            a@.len() == b@.len(),
            forall|k: int| 0 <= k < i ==> #[trigger] folded(a@[k]) == folded(b@[k]),
        decreases a@.len() - i,
    {
        if fold(a[i]) != fold(b[i]) {
            return false;
        }
        i += 1;
    }
    true
}

/// Whether characters spell a text.
pub fn spells(a: &[char], b: &str) -> (r: bool)
    ensures
        r == (a@ == b@),
{
    let b = chars_of(b);
    if a.len() != b.len() {
        return false;
    }
    let r = text_stands_at(a, b.as_slice(), 0);
    assert(a@.subrange(0, a@.len() as int) =~= a@);
    r
}

/// The texts of a list of strings.
pub open spec fn texts(v: Seq<String>) -> Seq<Seq<char>> {
    v.map_values(|s: String| s@)
}

} // verus!
