//! What the pixel formats mean: the levels of each pixel, in numbers.

use crate::bytes::{fields_are_numbers, pair_at, u16_at};
use crate::gles_trace::{layout_of, rgb_of, spread5, spread6, PixelLayout};
use vstd::prelude::*;

verus! {

proof fn packed_levels(v: u16)
    ensures
        spread5((v >> 11) & 0x1f) == 8 * (v / 0x800) + v / 0x800 / 4,
        spread6((v >> 5) & 0x3f) == 4 * (v / 0x20 % 0x40) + v / 0x20 % 0x40 / 16,
        spread5(v & 0x1f) == 8 * (v % 0x20) + v % 0x20 / 4,
        spread5((v >> 5) & 0x1f) == 8 * (v / 0x20 % 0x20) + v / 0x20 % 0x20 / 4,
        spread5((v >> 10) & 0x1f) == 8 * (v / 0x400 % 0x20) + v / 0x400 % 0x20 / 4,
        v & 0x0f == v % 0x10,
        (v >> 4) & 0x0f == v / 0x10 % 0x10,
        (v >> 8) & 0x0f == v / 0x100 % 0x10,
        (v & 0x0fff != 0) == (v % 0x1000 != 0),
        (v & 0xf000 != 0) == (v >= 0x1000),
        (v & 0xfffe != 0) == (v >= 2),
        (v & 0x0001 != 0) == (v % 2 == 1),
{
    assert((((((v >> 11) & 0x1f) as u8) << 3) | ((((v >> 11) & 0x1f) as u8) >> 2)) == 8 * (v / 0x800) + v
        / 0x800 / 4 && (((((v >> 5) & 0x3f) as u8) << 2) | ((((v >> 5) & 0x3f) as u8) >> 4)) == 4 * (v
        / 0x20 % 0x40) + v / 0x20 % 0x40 / 16 && ((((v & 0x1f) as u8) << 3) | (((v & 0x1f) as u8) >> 2))
        == 8 * (v % 0x20) + v % 0x20 / 4 && (((((v >> 5) & 0x1f) as u8) << 3) | ((((v >> 5) & 0x1f) as u8)
        >> 2)) == 8 * (v / 0x20 % 0x20) + v / 0x20 % 0x20 / 4 && (((((v >> 10) & 0x1f) as u8) << 3) | ((((v
        >> 10) & 0x1f) as u8) >> 2)) == 8 * (v / 0x400 % 0x20) + v / 0x400 % 0x20 / 4 && v & 0x0f == v
        % 0x10 && (v >> 4) & 0x0f == v / 0x10 % 0x10 && (v >> 8) & 0x0f == v / 0x100 % 0x10 && (v & 0x0fff
        != 0) == (v % 0x1000 != 0) && (v & 0xf000 != 0) == (v >= 0x1000) && (v & 0xfffe != 0) == (v >= 2)
        && (v & 0x0001 != 0) == (v % 2 == 1)) by (bit_vector);
}

/// A level of five bits over eight: the level times eight, its top bits again below.
pub open spec fn level5(x: int) -> int {
    8 * x + x / 4
}

/// A level of six bits over eight.
pub open spec fn level6(x: int) -> int {
    4 * x + x / 16
}

/// Whether three levels are those of one pixel of a format, which starts at `at`.
pub open spec fn shows(format: u32, ty: u32, p: Seq<u8>, at: int, r: u8, g: u8, b: u8) -> bool {
    let v = pair_at(p, at);
    &&& format == 0x1908 && ty == 0x1401 ==> r == p[at] && g == p[at + 1] && b == p[at + 2]
    &&& format == 0x80e1 && ty == 0x1401 ==> r == p[at + 2] && g == p[at + 1] && b == p[at]
    &&& format == 0x1907 && ty == 0x1401 ==> r == p[at] && g == p[at + 1] && b == p[at + 2]
    &&& (format == 0x1906 || format == 0x1909 || format == 0x190a) && ty == 0x1401 ==> r == p[at] && g
        == p[at] && b == p[at]
    &&& format == 0x1907 && ty == 0x8363 ==> r == level5(v / 0x800) && g == level6(v / 0x20 % 0x40) && b
        == level5(v % 0x20)
    &&& format == 0x1908 && ty == 0x8033 ==> r == 17 * (v % 0x10) && g == 17 * (v / 0x10 % 0x10) && b == 17
        * (v / 0x100 % 0x10)
    &&& format == 0x1908 && ty == 0x8034 ==> r == level5(v % 0x20) && g == level5(v / 0x20 % 0x20) && b
        == level5(v / 0x400 % 0x20)
}

/// How many bytes a pixel of a format has.
pub open spec fn stride(format: u32, ty: u32) -> int {
    if ty != 0x1401 {
        2
    } else if format == 0x1908 || format == 0x80e1 {
        4
    } else if format == 0x1907 {
        3
    } else if format == 0x190a {
        2
    } else {
        1
    }
}

/// Pixel `i` of a converted upload has the levels that its format gives to the bytes of
/// pixel `i` of the payload, and there are three levels for each pixel of the upload.
pub proof fn converted_pixels(
    width: i32,
    height: i32,
    format: u32,
    ty: u32,
    payload: Seq<u8>,
    out: Seq<u8>,
    i: int,
)
    requires
        rgb_of(width, height, format, ty, payload) == Some(out),
        0 <= i < width * height,
    ensures
        out.len() == 3 * (width * height),
        shows(
            format,
            ty,
            payload,
            i * stride(format, ty),
            out[3 * i],
            out[3 * i + 1],
            out[3 * i + 2],
        ),
{
    let layout = layout_of(format, ty)->0;
    let n = width * height;
    let size = layout.size();
    assert(size == stride(format, ty));
    assert(i * size + size <= payload.len()) by (nonlinear_arith)
        requires
            i + 1 <= n <= payload.len() as int / size,
            size >= 1,
    ;
    assert(0 <= i * size) by (nonlinear_arith)
        requires
            i >= 0,
            size >= 1,
    ;
    let at = i * size;
    let p = layout.pixel(payload, i);
    assert(out[3 * i] == layout.rgb(p)[0]) by {
        assert((3 * i) / 3 == i && (3 * i) % 3 == 0);
    }
    assert(out[3 * i + 1] == layout.rgb(p)[1]) by {
        assert((3 * i + 1) / 3 == i && (3 * i + 1) % 3 == 1);
    }
    assert(out[3 * i + 2] == layout.rgb(p)[2]) by {
        assert((3 * i + 2) / 3 == i && (3 * i + 2) % 3 == 2);
    }
    let v = u16_at(p, 0);
    packed_levels(v);
    fields_are_numbers(p, 0);
    fields_are_numbers(payload, at);
    if size >= 2 {
        assert(p[0] == payload[at] && p[1] == payload[at + 1]);
        assert(v == pair_at(payload, at));
    }
}

/// When a pixel counts as coloured and as visible, in the packed formats: by the colour
/// bits and the alpha bits of its number.
pub proof fn packed_pixels(p: Seq<u8>)
    ensures
        PixelLayout::Rgba4444.coloured(p) == (pair_at(p, 0) % 0x1000 != 0),
        PixelLayout::Rgba4444.visible(p) == (pair_at(p, 0) >= 0x1000),
        PixelLayout::Rgba5551.coloured(p) == (pair_at(p, 0) >= 2),
        PixelLayout::Rgba5551.visible(p) == (pair_at(p, 0) % 2 == 1),
        PixelLayout::Rgb565.coloured(p) == (pair_at(p, 0) != 0),
        PixelLayout::Rgb565.visible(p),
{
    packed_levels(u16_at(p, 0));
    fields_are_numbers(p, 0);
}

/// In the formats of bytes a pixel is coloured where a colour byte is not zero, and
/// visible where its alpha byte is not zero or it has none.
pub proof fn byte_pixels(p: Seq<u8>)
    ensures
        PixelLayout::Rgba8.coloured(p) == !(p[0] == 0 && p[1] == 0 && p[2] == 0),
        PixelLayout::Bgra8.coloured(p) == !(p[0] == 0 && p[1] == 0 && p[2] == 0),
        PixelLayout::Rgb8.coloured(p) == !(p[0] == 0 && p[1] == 0 && p[2] == 0),
        PixelLayout::Rgba8.visible(p) == (p[3] > 0),
        PixelLayout::Bgra8.visible(p) == (p[3] > 0),
        PixelLayout::Rgb8.visible(p),
        !PixelLayout::Alpha8.coloured(p),
        PixelLayout::Alpha8.visible(p) == (p[0] > 0),
        PixelLayout::Luminance8.coloured(p) == (p[0] > 0),
        PixelLayout::Luminance8.visible(p),
        PixelLayout::LuminanceAlpha8.coloured(p) == (p[0] > 0),
        PixelLayout::LuminanceAlpha8.visible(p) == (p[1] > 0),
{
}

/// Whether `which` lists the numbers below `n` for which a test holds, in order.
pub open spec fn lists(which: Seq<int>, n: int, test: spec_fn(int) -> bool) -> bool {
    &&& forall|k: int| 0 <= k < which.len() ==> 0 <= #[trigger] which[k] < n && test(which[k])
    &&& forall|j: int, k: int| 0 <= j < k < which.len() ==> #[trigger] which[j] < #[trigger] which[k]
    &&& forall|i: int| 0 <= i < n && #[trigger] test(i) ==> which.contains(i)
}

/// The count of coloured pixels is the number of pixels that are coloured.
pub proof fn coloured_pixels(layout: PixelLayout, payload: Seq<u8>, n: int) -> (which: Seq<int>)
    requires
        0 <= n,
    ensures
        which.len() == layout.count_coloured(payload, n),
        lists(which, n, |i: int| layout.coloured(layout.pixel(payload, i))),
    decreases n,
{
    if n == 0 {
        Seq::empty()
    } else {
        let test = |i: int| layout.coloured(layout.pixel(payload, i));
        let rest = coloured_pixels(layout, payload, n - 1);
        one_more(rest, n, test)
    }
}

/// The count of visible pixels is the number of pixels that are visible.
pub proof fn visible_pixels(layout: PixelLayout, payload: Seq<u8>, n: int) -> (which: Seq<int>)
    requires
        0 <= n,
    ensures
        which.len() == layout.count_visible(payload, n),
        lists(which, n, |i: int| layout.visible(layout.pixel(payload, i))),
    decreases n,
{
    if n == 0 {
        Seq::empty()
    } else {
        let test = |i: int| layout.visible(layout.pixel(payload, i));
        let rest = visible_pixels(layout, payload, n - 1);
        one_more(rest, n, test)
    }
}

proof fn one_more(rest: Seq<int>, n: int, test: spec_fn(int) -> bool) -> (which: Seq<int>)
    requires
        n > 0,
        lists(rest, n - 1, test),
    ensures
        lists(which, n, test),
        which.len() == rest.len() + if test(n - 1) {
            1int
        } else {
            0
        },
{
    if test(n - 1) {
        let which = rest.push(n - 1);
        assert forall|i: int| 0 <= i < n && #[trigger] test(i) implies which.contains(i) by {
            if i == n - 1 {
                assert(which[rest.len() as int] == i);
            } else {
                assert(rest.contains(i));
                let k = choose|k: int| 0 <= k < rest.len() && rest[k] == i;
                assert(which[k] == i);
            }
        }
        which
    } else {
        rest
    }
}

} // verus!
