//! What texts of numbers, lists and trimmed texts mean.

use crate::strings::{
    first_char, first_char_is_first, folded, pieces, trim, trim_end, trim_start, white,
};
use crate::text::{dec_text, hex_char, hex_digits, hex_fixed_text};
use vstd::prelude::*;

verus! {

/// The number that a digit stands for.
pub open spec fn digit_value(c: char) -> int {
    if '0' <= c <= '9' {
        c as int - '0' as int
    } else if 'a' <= c <= 'f' {
        c as int - 'a' as int + 10
    } else {
        -1
    }
}

/// The number that digits make in a base, the highest first.
pub open spec fn text_value(s: Seq<char>, base: int) -> int
    decreases s.len(),
{
    if s.len() == 0 {
        0
    } else {
        base * text_value(s.drop_last(), base) + digit_value(s.last())
    }
}

proof fn digits_have_values(d: nat)
    requires
        d < 16,
    ensures
        digit_value(hex_char(d)) == d,
{
}

/// A decimal text has the value of its number, and starts with zero only if it is zero.
pub proof fn decimal_texts(v: nat)
    ensures
        text_value(dec_text(v), 10) == v,
        dec_text(v).len() > 0,
        v > 0 ==> dec_text(v)[0] != '0',
    decreases v,
{
    digits_have_values(v % 10);
    if v < 10 {
        let s = seq![hex_char(v)];
        assert(s.drop_last() =~= Seq::empty());
        assert(text_value(s.drop_last(), 10) == 0);
        assert(v > 0 ==> digit_value(hex_char(v)) != digit_value('0'));
    } else {
        decimal_texts(v / 10);
        let s = dec_text(v / 10);
        assert(s.push(hex_char(v % 10)).drop_last() =~= s);
        assert(dec_text(v)[0] == s[0]);
    }
}

/// A hexadecimal text has the value of its number, and starts with zero only if it is
/// zero.
pub proof fn hexadecimal_texts(v: nat)
    ensures
        text_value(hex_digits(v), 16) == v,
        hex_digits(v).len() > 0,
        v > 0 ==> hex_digits(v)[0] != '0',
    decreases v,
{
    digits_have_values(v % 16);
    if v < 16 {
        let s = seq![hex_char(v)];
        assert(s.drop_last() =~= Seq::empty());
        assert(text_value(s.drop_last(), 16) == 0);
        assert(v > 0 ==> digit_value(hex_char(v)) != digit_value('0'));
    } else {
        hexadecimal_texts(v / 16);
        let s = hex_digits(v / 16);
        assert(s.push(hex_char(v % 16)).drop_last() =~= s);
        assert(hex_digits(v)[0] == s[0]);
    }
}

/// A power of sixteen.
pub open spec fn sixteens(n: nat) -> int
    decreases n,
{
    if n == 0 {
        1
    } else {
        16 * sixteens((n - 1) as nat)
    }
}

/// A hexadecimal text of fixed width has that many digits, and the value of its number
/// where the number fits.
pub proof fn fixed_hexadecimal_texts(v: nat, width: nat)
    requires
        v < sixteens(width),
    ensures
        hex_fixed_text(v, width).len() == width,
        text_value(hex_fixed_text(v, width), 16) == v,
    decreases width,
{
    if width > 0 {
        digits_have_values(v % 16);
        fixed_hexadecimal_texts(v / 16, (width - 1) as nat);
        let s = hex_fixed_text(v / 16, (width - 1) as nat);
        assert(s.push(hex_char(v % 16)).drop_last() =~= s);
    }
}

/// The texts with a character between each two.
pub open spec fn rejoined(parts: Seq<Seq<char>>, c: char) -> Seq<char>
    decreases parts.len(),
{
    if parts.len() == 0 {
        Seq::empty()
    } else if parts.len() == 1 {
        parts[0]
    } else {
        parts[0] + seq![c] + rejoined(parts.drop_first(), c)
    }
}

/// The pieces of a text do not hold the character that it is cut at, and with that
/// character between them give the text back.
pub proof fn pieces_give_the_text_back(s: Seq<char>, c: char)
    ensures
        rejoined(pieces(s, c), c) == s,
        pieces(s, c).len() > 0,
        forall|i: int, j: int|
            0 <= i < pieces(s, c).len() && 0 <= j < pieces(s, c)[i].len() ==> #[trigger] pieces(s, c)[i][j]
                != c,
    decreases s.len(),
{
    first_char_is_first(s, c, 0);
    let at = first_char(s, c, 0);
    let all = pieces(s, c);
    if at < s.len() {
        let rest = s.skip(at + 1);
        pieces_give_the_text_back(rest, c);
        let more = pieces(rest, c);
        assert(all =~= seq![s.take(at)] + more);
        assert(all.drop_first() =~= more);
        assert(s.take(at) + seq![c] + rest =~= s);
        assert forall|i: int, j: int| 0 <= i < all.len() && 0 <= j < all[i].len() implies #[trigger] all[i][j]
            != c by {
            if i > 0 {
                assert(all[i] == more[i - 1]);
                assert(more[i - 1][j] != c);
            }
        }
    } else {
        assert(all =~= seq![s]);
    }
}

proof fn trimmed_start(s: Seq<char>) -> (k: int)
    ensures
        0 <= k <= s.len(),
        trim_start(s) == s.skip(k),
        forall|i: int| 0 <= i < k ==> white(#[trigger] s[i]),
        k < s.len() ==> !white(s[k]),
    decreases s.len(),
{
    if s.len() == 0 || !white(s[0]) {
        assert(s.skip(0) =~= s);
        0
    } else {
        let rest = s.drop_first();
        let k = trimmed_start(rest);
        assert(rest.skip(k) =~= s.skip(k + 1));
        assert forall|i: int| 0 <= i < k + 1 implies white(#[trigger] s[i]) by {
            if i > 0 {
                assert(rest[i - 1] == s[i]);
            }
        }
        k + 1
    }
}

proof fn trimmed_end(s: Seq<char>) -> (n: int)
    ensures
        0 <= n <= s.len(),
        trim_end(s) == s.take(n),
        forall|i: int| n <= i < s.len() ==> white(#[trigger] s[i]),
        n > 0 ==> !white(s[n - 1]),
    decreases s.len(),
{
    if s.len() == 0 || !white(s.last()) {
        assert(s.take(s.len() as int) =~= s);
        s.len() as int
    } else {
        let rest = s.drop_last();
        let n = trimmed_end(rest);
        assert(rest.take(n) =~= s.take(n));
        assert forall|i: int| n <= i < s.len() implies white(#[trigger] s[i]) by {
            if i < rest.len() {
                assert(rest[i] == s[i]);
            }
        }
        n
    }
}

/// Trimming takes white space off both ends and nothing else: what is left neither starts
/// nor ends with white space.
pub proof fn trimmed_texts(s: Seq<char>) -> (range: (int, int))
    ensures
        0 <= range.0 <= range.1 <= s.len(),
        trim(s) == s.subrange(range.0, range.1),
        forall|i: int| 0 <= i < range.0 ==> white(#[trigger] s[i]),
        forall|i: int| range.1 <= i < s.len() ==> white(#[trigger] s[i]),
        trim(s).len() > 0 ==> !white(trim(s)[0]) && !white(trim(s).last()),
{
    let k = trimmed_start(s);
    let t = s.skip(k);
    let n = trimmed_end(t);
    assert(t.take(n) =~= s.subrange(k, k + n));
    assert forall|i: int| k + n <= i < s.len() implies white(#[trigger] s[i]) by {
        assert(t[i - k] == s[i]);
    }
    (k, k + n)
}

/// Folding turns capital ASCII letters into small ones and leaves every other character.
pub proof fn folded_letters(c: char)
    ensures
        'A' <= c <= 'Z' ==> folded(c) == c as int + 'a' as int - 'A' as int,
        !('A' <= c <= 'Z') ==> folded(c) == c as int,
{
}

} // verus!
