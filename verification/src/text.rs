//! Number formatting for messages.

use vstd::prelude::*;
use vstd::string::StringExecFns;

verus! {

/// The lower-case hexadecimal digit for a value below sixteen.
pub open spec fn hex_char(d: nat) -> char {
    match d as u8 {
        0 => '0',
        1 => '1',
        2 => '2',
        3 => '3',
        4 => '4',
        5 => '5',
        6 => '6',
        7 => '7',
        8 => '8',
        9 => '9',
        10 => 'a',
        11 => 'b',
        12 => 'c',
        13 => 'd',
        14 => 'e',
        _ => 'f',
    }
}

/// `v` in decimal, with no leading zeros.
pub open spec fn dec_text(v: nat) -> Seq<char>
    decreases v,
{
    if v < 10 {
        seq![hex_char(v)]
    } else {
        dec_text(v / 10).push(hex_char(v % 10))
    }
}

/// The hexadecimal digits of `v`, with no leading zeros.
pub open spec fn hex_digits(v: nat) -> Seq<char>
    decreases v,
{
    if v < 16 {
        seq![hex_char(v)]
    } else {
        hex_digits(v / 16).push(hex_char(v % 16))
    }
}

/// Exactly `width` hexadecimal digits of `v`, padded with zeros on the left.
pub open spec fn hex_fixed_text(v: nat, width: nat) -> Seq<char>
    decreases width,
{
    if width == 0 {
        Seq::empty()
    } else {
        hex_fixed_text(v / 16, (width - 1) as nat).push(hex_char(v % 16))
    }
}

/// `v` in hexadecimal behind `0x`.
pub open spec fn hex_text(v: nat) -> Seq<char> {
    "0x"@ + hex_digits(v)
}

/// `v` as `0x` and eight hexadecimal digits.
pub open spec fn hex32_text(v: u32) -> Seq<char> {
    "0x"@ + hex_fixed_text(v as nat, 8)
}

/// `v` as `0x` and four hexadecimal digits.
pub open spec fn hex16_text(v: u16) -> Seq<char> {
    "0x"@ + hex_fixed_text(v as nat, 4)
}

/// `v` in decimal, with a minus sign before a negative number.
pub open spec fn int_text(v: int) -> Seq<char> {
    if v < 0 {
        "-"@ + dec_text((-v) as nat)
    } else {
        dec_text(v as nat)
    }
}

/// `v` in hexadecimal, with at least four digits.
pub open spec fn hex4_text(v: u32) -> Seq<char> {
    if v < 0x1_0000 {
        hex_fixed_text(v as nat, 4)
    } else {
        hex_digits(v as nat)
    }
}

fn digit(d: u64) -> (r: &'static str)
    requires
        d < 16,
    ensures
        r@ == seq![hex_char(d as nat)],
{
    proof {
        reveal_strlit("0");
        reveal_strlit("1");
        reveal_strlit("2");
        reveal_strlit("3");
        reveal_strlit("4");
        reveal_strlit("5");
        reveal_strlit("6");
        reveal_strlit("7");
        reveal_strlit("8");
        reveal_strlit("9");
        reveal_strlit("a");
        reveal_strlit("b");
        reveal_strlit("c");
        reveal_strlit("d");
        reveal_strlit("e");
        reveal_strlit("f");
    }
    let r = match d {
        0 => "0",
        1 => "1",
        2 => "2",
        3 => "3",
        4 => "4",
        5 => "5",
        6 => "6",
        7 => "7",
        8 => "8",
        9 => "9",
        10 => "a",
        11 => "b",
        12 => "c",
        13 => "d",
        14 => "e",
        _ => "f",
    };
    assert(r@ =~= seq![hex_char(d as nat)]);
    r
}

fn hex_digits_of(v: u64) -> (r: String)
    ensures
        r@ == hex_digits(v as nat),
    decreases v,
{
    if v < 16 {
        String::from_str(digit(v))
    } else {
        let mut head = hex_digits_of(v / 16);
        let ghost before = head@;
        head.append(digit(v % 16));
        assert(head@ =~= before.push(hex_char((v % 16) as nat)));
        head
    }
}

fn hex_fixed(v: u64, width: u32) -> (r: String)
    ensures
        r@ == hex_fixed_text(v as nat, width as nat),
    decreases width,
{
    if width == 0 {
        let r = String::new();
        assert(r@ =~= Seq::empty());
        r
    } else {
        let mut head = hex_fixed(v / 16, width - 1);
        let ghost before = head@;
        head.append(digit(v % 16));
        assert(head@ =~= before.push(hex_char((v % 16) as nat)));
        head
    }
}

/// Formats `v` in decimal.
pub fn dec(v: u64) -> (r: String)
    ensures
        r@ == dec_text(v as nat),
    decreases v,
{
    if v < 10 {
        String::from_str(digit(v))
    } else {
        let mut head = dec(v / 10);
        let ghost before = head@;
        head.append(digit(v % 10));
        assert(head@ =~= before.push(hex_char((v % 10) as nat)));
        head
    }
}

/// Formats `v` in hexadecimal with a `0x` prefix.
pub fn hex(v: u64) -> (r: String)
    ensures
        r@ == hex_text(v as nat),
{
    join("0x", hex_digits_of(v).as_str())
}

/// Formats `v` as `0x` and eight hexadecimal digits.
pub fn hex32(v: u32) -> (r: String)
    ensures
        r@ == hex32_text(v),
{
    join("0x", hex_fixed(v as u64, 8).as_str())
}

/// Formats `v` as `0x` and four hexadecimal digits.
pub fn hex16(v: u16) -> (r: String)
    ensures
        r@ == hex16_text(v),
{
    join("0x", hex_fixed(v as u64, 4).as_str())
}

/// Formats a signed number in decimal.
pub fn signed(v: i32) -> (r: String)
    ensures
        r@ == int_text(v as int),
{
    if v < 0 {
        join("-", dec((-(v as i64)) as u64).as_str())
    } else {
        dec(v as u64)
    }
}

/// Formats `v` in hexadecimal with at least four digits.
pub fn hex4(v: u32) -> (r: String)
    ensures
        r@ == hex4_text(v),
{
    if v < 0x1_0000 {
        hex_fixed(v as u64, 4)
    } else {
        hex_digits_of(v as u64)
    }
}

/// `a` followed by `b`.
pub fn join(a: &str, b: &str) -> (r: String)
    ensures
        r@ == a@ + b@,
{
    let mut r = String::from_str(a);
    r.append(b);
    r
}

/// `a`, `b`, `c` and `d` one after another.
pub fn join4(a: &str, b: &str, c: &str, d: &str) -> (r: String)
    ensures
        r@ == a@ + b@ + c@ + d@,
{
    let mut r = String::from_str(a);
    r.append(b);
    r.append(c);
    r.append(d);
    r
}

/// The fixed-width form has as many digits as asked for.
pub proof fn hex_fixed_text_len(v: nat, width: nat)
    ensures
        hex_fixed_text(v, width).len() == width,
    decreases width,
{
    if width > 0 {
        hex_fixed_text_len(v / 16, (width - 1) as nat);
    }
}

} // verus!
