//! Inspecting texture uploads: which ones to trace, how much of them is
//! visible, and what they look like as plain RGB.

use crate::bytes::{u16_at, u16_le};
use crate::strings::{
    chars_of, equal_folded, find_char, first_char, pieces, same_folded, spells, trim, trimmed,
};
use crate::text::{
    dec, dec_text, hex, hex4, hex4_text, hex_text, int_text, join, signed,
};
use vstd::prelude::*;
use vstd::slice::slice_subrange;

verus! {

pub const GL_ALPHA: u32 = 0x1906;

pub const GL_RGB: u32 = 0x1907;

pub const GL_RGBA: u32 = 0x1908;

pub const GL_LUMINANCE: u32 = 0x1909;

pub const GL_LUMINANCE_ALPHA: u32 = 0x190a;

pub const GL_UNSIGNED_BYTE: u32 = 0x1401;

pub const GL_UNSIGNED_SHORT_4_4_4_4: u32 = 0x8033;

pub const GL_UNSIGNED_SHORT_5_5_5_1: u32 = 0x8034;

pub const GL_UNSIGNED_SHORT_5_6_5: u32 = 0x8363;

pub const GL_BGRA_EXT: u32 = 0x80e1;

/// How many pixels of an upload are visible.
#[derive(Debug, Clone, Copy, PartialEq, Eq, Structural)]
pub struct TexturePayloadStats {
    /// The pixels with a colour other than black.
    pub nonzero_rgb_pixels: usize,
    /// The pixels that are not fully transparent.
    pub nonzero_alpha_pixels: usize,
}

/// What an upload is matched by.
#[derive(Debug, Clone, Copy, PartialEq, Eq)]
pub struct TextureUploadMatch<'a> {
    pub kind: Option<&'a str>,
    pub texture: u32,
    pub width: i32,
    pub height: i32,
    pub format: u32,
    pub ty: u32,
}

/// Whether a word names an upload: `all`, its kind, its texture (as a number,
/// with the prefix `tex`, or in hexadecimal), its size, its format or its type.
/// Only the decimal texture forms depend on case.
pub open spec fn names_upload(token: Seq<char>, upload: TextureUploadMatch<'_>) -> bool {
    ||| same_folded(token, "all"@)
    ||| upload.kind is Some && same_folded(token, upload.kind->0@)
    ||| token == dec_text(upload.texture as nat)
    ||| token == "tex"@ + dec_text(upload.texture as nat)
    ||| same_folded(token, hex_text(upload.texture as nat))
    ||| same_folded(token, int_text(upload.width as int) + "x"@ + int_text(upload.height as int))
    ||| same_folded(token, "fmt"@ + hex4_text(upload.format))
    ||| same_folded(token, "ty"@ + hex4_text(upload.ty))
}

/// Whether a part of a list is a word that names an upload.
pub open spec fn piece_names_upload(piece: Seq<char>, upload: TextureUploadMatch<'_>) -> bool {
    trim(piece).len() > 0 && names_upload(trim(piece), upload)
}

/// Whether a comma-separated list has a word that names an upload.
pub open spec fn list_names_upload(list: Seq<char>, upload: TextureUploadMatch<'_>) -> bool {
    exists|i: int|
        0 <= i < pieces(list, ',').len() && piece_names_upload(
            #[trigger] pieces(list, ',')[i],
            upload,
        )
}

/// A list has a word that names an upload exactly when its first part or the
/// rest has.
proof fn list_by_first(list: Seq<char>, upload: TextureUploadMatch<'_>)
    ensures
        ({
            let at = first_char(list, ',', 0);
            list_names_upload(list, upload) == if at >= list.len() {
                piece_names_upload(list, upload)
            } else {
                piece_names_upload(list.take(at), upload) || list_names_upload(
                    list.skip(at + 1),
                    upload,
                )
            }
        }),
{
    let at = first_char(list, ',', 0);
    let all = pieces(list, ',');
    if at >= list.len() {
        assert(all[0] == list);
        if piece_names_upload(list, upload) {
            assert(piece_names_upload(all[0], upload));
        }
    } else {
        let rest = pieces(list.skip(at + 1), ',');
        assert(all == seq![list.take(at)] + rest);
        if piece_names_upload(list.take(at), upload) {
            assert(piece_names_upload(all[0], upload));
        }
        if list_names_upload(list.skip(at + 1), upload) {
            let i = choose|i: int|
                0 <= i < rest.len() && piece_names_upload(#[trigger] rest[i], upload);
            assert(all[i + 1] == rest[i]);
        }
        if list_names_upload(list, upload) {
            let i = choose|i: int|
                0 <= i < all.len() && piece_names_upload(#[trigger] all[i], upload);
            if i > 0 {
                assert(all[i] == rest[i - 1]);
            }
        }
    }
}

fn token_matches(token: &[char], upload: &TextureUploadMatch<'_>) -> (r: bool)
    ensures
        r == names_upload(token@, *upload),
{
    if equal_folded(token, "all") {
        return true;
    }
    match upload.kind {
        Some(kind) => if equal_folded(token, kind) {
            return true;
        },
        None => {},
    }
    let texture = dec(upload.texture as u64);
    let size = join(
        join(signed(upload.width).as_str(), "x").as_str(),
        signed(upload.height).as_str(),
    );
    spells(token, texture.as_str()) || spells(token, join("tex", texture.as_str()).as_str())
        || equal_folded(token, hex(upload.texture as u64).as_str()) || equal_folded(
        token,
        size.as_str(),
    ) || equal_folded(token, join("fmt", hex4(upload.format).as_str()).as_str()) || equal_folded(
        token,
        join("ty", hex4(upload.ty).as_str()).as_str(),
    )
}

/// Whether a comma-separated list names an upload.
pub fn texture_upload_matches(matcher: &str, upload: TextureUploadMatch<'_>) -> (r: bool)
    ensures
        r == list_names_upload(matcher@, upload),
{
    let chars = chars_of(matcher);
    let mut start: usize = 0;
    assert(chars@.skip(0) =~= chars@);
    loop
        invariant
            start <= chars@.len(),
            list_names_upload(matcher@, upload) == list_names_upload(
                chars@.skip(start as int),
                upload,
            ),
        decreases chars@.len() - start,
    {
        let rest = slice_subrange(chars.as_slice(), start, chars.len());
        assert(rest@ =~= chars@.skip(start as int));
        let at = find_char(rest, ',', 0);
        let token = trimmed(slice_subrange(rest, 0, at));
        proof {
            list_by_first(rest@, upload);
            assert(rest@.subrange(0, at as int) =~= rest@.take(at as int));
            assert(at == rest@.len() ==> rest@.take(at as int) =~= rest@);
        }
        if token.len() > 0 && token_matches(token, &upload) {
            return true;
        }
        if at >= rest.len() {
            return false;
        }
        assert(rest@.skip(at + 1) =~= chars@.skip(start + at + 1));
        start = start + at + 1;
    }
}

/// How a pixel is laid out.
#[derive(Debug, Clone, Copy, PartialEq, Eq, Structural)]
pub enum PixelLayout {
    Rgba8,
    Bgra8,
    Rgb8,
    Alpha8,
    Luminance8,
    LuminanceAlpha8,
    Rgb565,
    Rgba4444,
    Rgba5551,
}

/// The layout of a format and a type, if it is a known one.
pub open spec fn layout_of(format: u32, ty: u32) -> Option<PixelLayout> {
    if ty == GL_UNSIGNED_BYTE {
        if format == GL_RGBA {
            Some(PixelLayout::Rgba8)
        } else if format == GL_BGRA_EXT {
            Some(PixelLayout::Bgra8)
        } else if format == GL_RGB {
            Some(PixelLayout::Rgb8)
        } else if format == GL_ALPHA {
            Some(PixelLayout::Alpha8)
        } else if format == GL_LUMINANCE {
            Some(PixelLayout::Luminance8)
        } else if format == GL_LUMINANCE_ALPHA {
            Some(PixelLayout::LuminanceAlpha8)
        } else {
            None
        }
    } else if format == GL_RGB && ty == GL_UNSIGNED_SHORT_5_6_5 {
        Some(PixelLayout::Rgb565)
    } else if format == GL_RGBA && ty == GL_UNSIGNED_SHORT_4_4_4_4 {
        Some(PixelLayout::Rgba4444)
    } else if format == GL_RGBA && ty == GL_UNSIGNED_SHORT_5_5_5_1 {
        Some(PixelLayout::Rgba5551)
    } else {
        None
    }
}

/// A five-bit level spread over eight bits.
pub open spec fn spread5(v: u16) -> u8 {
    ((v as u8) << 3) | ((v as u8) >> 2)
}

/// A six-bit level spread over eight bits.
pub open spec fn spread6(v: u16) -> u8 {
    ((v as u8) << 2) | ((v as u8) >> 4)
}

impl PixelLayout {
    /// The bytes of one pixel.
    pub open spec fn size(self) -> int {
        match self {
            PixelLayout::Rgba8 => 4,
            PixelLayout::Bgra8 => 4,
            PixelLayout::Rgb8 => 3,
            PixelLayout::Alpha8 => 1,
            PixelLayout::Luminance8 => 1,
            PixelLayout::LuminanceAlpha8 => 2,
            PixelLayout::Rgb565 => 2,
            PixelLayout::Rgba4444 => 2,
            PixelLayout::Rgba5551 => 2,
        }
    }

    /// Whether a pixel has a colour other than black.
    pub open spec fn coloured(self, p: Seq<u8>) -> bool {
        match self {
            PixelLayout::Rgba8 => p[0] != 0 || p[1] != 0 || p[2] != 0,
            PixelLayout::Bgra8 => p[0] != 0 || p[1] != 0 || p[2] != 0,
            PixelLayout::Rgb8 => p[0] != 0 || p[1] != 0 || p[2] != 0,
            PixelLayout::Alpha8 => false,
            PixelLayout::Luminance8 => p[0] != 0,
            PixelLayout::LuminanceAlpha8 => p[0] != 0,
            PixelLayout::Rgb565 => u16_at(p, 0) != 0,
            PixelLayout::Rgba4444 => u16_at(p, 0) & 0x0fff != 0,
            PixelLayout::Rgba5551 => u16_at(p, 0) & 0xfffe != 0,
        }
    }

    /// Whether a pixel is not fully transparent.
    pub open spec fn visible(self, p: Seq<u8>) -> bool {
        match self {
            PixelLayout::Rgba8 => p[3] != 0,
            PixelLayout::Bgra8 => p[3] != 0,
            PixelLayout::Rgb8 => true,
            PixelLayout::Alpha8 => p[0] != 0,
            PixelLayout::Luminance8 => true,
            PixelLayout::LuminanceAlpha8 => p[1] != 0,
            PixelLayout::Rgb565 => true,
            PixelLayout::Rgba4444 => u16_at(p, 0) & 0xf000 != 0,
            PixelLayout::Rgba5551 => u16_at(p, 0) & 0x0001 != 0,
        }
    }

    /// The red, green and blue levels of a pixel.
    pub open spec fn rgb(self, p: Seq<u8>) -> Seq<u8> {
        let v = u16_at(p, 0);
        match self {
            PixelLayout::Rgba8 => seq![p[0], p[1], p[2]],
            PixelLayout::Bgra8 => seq![p[2], p[1], p[0]],
            PixelLayout::Rgb8 => seq![p[0], p[1], p[2]],
            PixelLayout::Alpha8 => seq![p[0], p[0], p[0]],
            PixelLayout::Luminance8 => seq![p[0], p[0], p[0]],
            PixelLayout::LuminanceAlpha8 => seq![p[0], p[0], p[0]],
            PixelLayout::Rgb565 => seq![
                spread5((v >> 11) & 0x1f),
                spread6((v >> 5) & 0x3f),
                spread5(v & 0x1f),
            ],
            PixelLayout::Rgba4444 => seq![
                ((v & 0x0f) * 17) as u8,
                (((v >> 4) & 0x0f) * 17) as u8,
                (((v >> 8) & 0x0f) * 17) as u8,
            ],
            PixelLayout::Rgba5551 => seq![
                spread5(v & 0x1f),
                spread5((v >> 5) & 0x1f),
                spread5((v >> 10) & 0x1f),
            ],
        }
    }

    /// Pixel `i` of a payload.
    pub open spec fn pixel(self, payload: Seq<u8>, i: int) -> Seq<u8> {
        payload.subrange(i * self.size(), i * self.size() + self.size())
    }

    /// The whole pixels of a payload.
    pub open spec fn whole(self, payload: Seq<u8>) -> int {
        payload.len() as int / self.size()
    }

    /// How many of the first `n` pixels have a colour other than black.
    pub open spec fn count_coloured(self, payload: Seq<u8>, n: int) -> int
        decreases n,
    {
        if n <= 0 {
            0
        } else {
            self.count_coloured(payload, n - 1) + if self.coloured(self.pixel(payload, n - 1)) {
                1int
            } else {
                0int
            }
        }
    }

    /// How many of the first `n` pixels are not fully transparent.
    pub open spec fn count_visible(self, payload: Seq<u8>, n: int) -> int
        decreases n,
    {
        if n <= 0 {
            0
        } else {
            self.count_visible(payload, n - 1) + if self.visible(self.pixel(payload, n - 1)) {
                1int
            } else {
                0int
            }
        }
    }

    fn bytes_per_pixel(self) -> (r: usize)
        ensures
            r == self.size(),
            1 <= r <= 4,
    {
        match self {
            PixelLayout::Rgba8 | PixelLayout::Bgra8 => 4,
            PixelLayout::Rgb8 => 3,
            PixelLayout::Alpha8 | PixelLayout::Luminance8 => 1,
            _ => 2,
        }
    }

    fn is_coloured(self, p: &[u8]) -> (r: bool)
        requires
            p@.len() == self.size(),
        ensures
            r == self.coloured(p@),
    {
        match self {
            PixelLayout::Rgba8 | PixelLayout::Bgra8 | PixelLayout::Rgb8 => p[0] != 0 || p[1] != 0
                || p[2] != 0,
            PixelLayout::Alpha8 => false,
            PixelLayout::Luminance8 | PixelLayout::LuminanceAlpha8 => p[0] != 0,
            PixelLayout::Rgb565 => short(p) != 0,
            PixelLayout::Rgba4444 => short(p) & 0x0fff != 0,
            PixelLayout::Rgba5551 => short(p) & 0xfffe != 0,
        }
    }

    fn is_visible(self, p: &[u8]) -> (r: bool)
        requires
            p@.len() == self.size(),
        ensures
            r == self.visible(p@),
    {
        match self {
            PixelLayout::Rgba8 | PixelLayout::Bgra8 => p[3] != 0,
            PixelLayout::Alpha8 => p[0] != 0,
            PixelLayout::LuminanceAlpha8 => p[1] != 0,
            PixelLayout::Rgba4444 => short(p) & 0xf000 != 0,
            PixelLayout::Rgba5551 => short(p) & 0x0001 != 0,
            PixelLayout::Rgb8 | PixelLayout::Luminance8 | PixelLayout::Rgb565 => true,
        }
    }

    fn to_rgb(self, p: &[u8]) -> (r: (u8, u8, u8))
        requires
            p@.len() == self.size(),
        ensures
            seq![r.0, r.1, r.2] == self.rgb(p@),
    {
        match self {
            PixelLayout::Rgba8 | PixelLayout::Rgb8 => (p[0], p[1], p[2]),
            PixelLayout::Bgra8 => (p[2], p[1], p[0]),
            PixelLayout::Alpha8 | PixelLayout::Luminance8 | PixelLayout::LuminanceAlpha8 => (
                p[0],
                p[0],
                p[0],
            ),
            PixelLayout::Rgb565 => {
                let v = short(p);
                (level5((v >> 11) & 0x1f), level6((v >> 5) & 0x3f), level5(v & 0x1f))
            },
            PixelLayout::Rgba4444 => {
                let v = short(p);
                assert(v & 0x0f <= 15 && (v >> 4) & 0x0f <= 15 && (v >> 8) & 0x0f <= 15)
                    by (bit_vector);
                (level4(v & 0x0f), level4((v >> 4) & 0x0f), level4((v >> 8) & 0x0f))
            },
            PixelLayout::Rgba5551 => {
                let v = short(p);
                (level5(v & 0x1f), level5((v >> 5) & 0x1f), level5((v >> 10) & 0x1f))
            },
        }
    }
}

fn short(p: &[u8]) -> (r: u16)
    requires
        p@.len() == 2,
    ensures
        r == u16_at(p@, 0),
{
    match u16_le(p, 0) {
        Some(v) => v,
        None => 0,
    }
}

fn level4(v: u16) -> (r: u8)
    requires
        v <= 15,
    ensures
        r == (v * 17) as u8,
{
    (v * 17) as u8
}

fn level5(v: u16) -> (r: u8)
    ensures
        r == spread5(v),
{
    ((v as u8) << 3) | ((v as u8) >> 2)
}

fn level6(v: u16) -> (r: u8)
    ensures
        r == spread6(v),
{
    ((v as u8) << 2) | ((v as u8) >> 4)
}

fn layout(format: u32, ty: u32) -> (r: Option<PixelLayout>)
    ensures
        r == layout_of(format, ty),
{
    match (format, ty) {
        (0x1908, 0x1401) => Some(PixelLayout::Rgba8),
        (0x80e1, 0x1401) => Some(PixelLayout::Bgra8),
        (0x1907, 0x1401) => Some(PixelLayout::Rgb8),
        (0x1906, 0x1401) => Some(PixelLayout::Alpha8),
        (0x1909, 0x1401) => Some(PixelLayout::Luminance8),
        (0x190a, 0x1401) => Some(PixelLayout::LuminanceAlpha8),
        (0x1907, 0x8363) => Some(PixelLayout::Rgb565),
        (0x1908, 0x8033) => Some(PixelLayout::Rgba4444),
        (0x1908, 0x8034) => Some(PixelLayout::Rgba5551),
        _ => None,
    }
}

/// The pixels of an upload: none for a negative side, or where the number does
/// not fit.
pub open spec fn pixels_of(width: i32, height: i32) -> Option<int> {
    if width < 0 || height < 0 || width * height > usize::MAX {
        None
    } else {
        Some(width * height)
    }
}

/// The number of pixels of an upload.
pub fn pixel_count(width: i32, height: i32) -> (r: Option<usize>)
    ensures
        match r {
            Some(n) => pixels_of(width, height) == Some(n as int),
            None => pixels_of(width, height) is None,
        },
{
    if width < 0 || height < 0 {
        return None;
    }
    (width as usize).checked_mul(height as usize)
}

/// The pixels that are looked at: those of the upload that the payload holds.
pub open spec fn seen_pixels(layout: PixelLayout, count: int, payload: Seq<u8>) -> int {
    if count <= layout.whole(payload) {
        count
    } else {
        layout.whole(payload)
    }
}

/// The visible pixels of an upload.
pub open spec fn stats_of(width: i32, height: i32, format: u32, ty: u32, payload: Seq<u8>) -> Option<
    TexturePayloadStats,
> {
    match (pixels_of(width, height), layout_of(format, ty)) {
        (Some(count), Some(layout)) => {
            let n = seen_pixels(layout, count, payload);
            Some(
                TexturePayloadStats {
                    nonzero_rgb_pixels: layout.count_coloured(payload, n) as usize,
                    nonzero_alpha_pixels: layout.count_visible(payload, n) as usize,
                },
            )
        },
        _ => None,
    }
}

/// The upload as red, green and blue levels, pixel after pixel.
pub open spec fn rgb_bytes(layout: PixelLayout, payload: Seq<u8>, n: int) -> Seq<u8> {
    Seq::new(
        (3 * n) as nat,
        |j: int| layout.rgb(layout.pixel(payload, j / 3))[j % 3],
    )
}

/// The upload as plain RGB: none where the payload is too short.
pub open spec fn rgb_of(width: i32, height: i32, format: u32, ty: u32, payload: Seq<u8>) -> Option<
    Seq<u8>,
> {
    match (pixels_of(width, height), layout_of(format, ty)) {
        (Some(count), Some(layout)) => if 3 * count > usize::MAX || count > layout.whole(payload) {
            None
        } else {
            Some(rgb_bytes(layout, payload, count))
        },
        _ => None,
    }
}

/// The counts are never larger than the number of pixels looked at.
pub proof fn counts_are_bounded(layout: PixelLayout, payload: Seq<u8>, n: int)
    requires
        0 <= n,
    ensures
        0 <= layout.count_coloured(payload, n) <= n,
        0 <= layout.count_visible(payload, n) <= n,
    decreases n,
{
    if n > 0 {
        counts_are_bounded(layout, payload, n - 1);
    }
}

/// Whole pixels lie inside the payload.
proof fn pixel_inside(layout: PixelLayout, len: int, i: int)
    requires
        0 <= len,
        0 <= i < len / layout.size(),
    ensures
        0 <= i * layout.size(),
        i * layout.size() + layout.size() <= len,
{
    let size = layout.size();
    assert(0 <= i * size && i * size + size <= len) by (nonlinear_arith)
        requires
            1 <= size <= 4,
            0 <= i < len / size,
            0 <= len,
    ;
}

/// Counts the visible pixels of an upload.
pub fn texture_payload_stats(width: i32, height: i32, format: u32, ty: u32, payload: &[u8]) -> (r:
    Option<TexturePayloadStats>)
    ensures
        r == stats_of(width, height, format, ty, payload@),
{
    let count = pixel_count(width, height)?;
    let layout = layout(format, ty)?;
    let size = layout.bytes_per_pixel();
    let whole = payload.len() / size;
    let n = if count <= whole {
        count
    } else {
        whole
    };
    let mut nonzero_rgb_pixels: usize = 0;
    let mut nonzero_alpha_pixels: usize = 0;
    let mut i: usize = 0;
    while i < n
        invariant
            i <= n <= whole,
            payload@.len() <= usize::MAX,
            whole == payload@.len() as int / layout.size(),
            size == layout.size(),
            nonzero_rgb_pixels == layout.count_coloured(payload@, i as int),
            nonzero_alpha_pixels == layout.count_visible(payload@, i as int),
            nonzero_rgb_pixels <= i,
            nonzero_alpha_pixels <= i,
        decreases n - i,
    {
        proof {
            pixel_inside(layout, payload@.len() as int, i as int);
        }
        let pixel = slice_subrange(payload, i * size, i * size + size);
        if layout.is_coloured(pixel) {
            nonzero_rgb_pixels += 1;
        }
        if layout.is_visible(pixel) {
            nonzero_alpha_pixels += 1;
        }
        i += 1;
    }
    Some(TexturePayloadStats { nonzero_rgb_pixels, nonzero_alpha_pixels })
}

/// Converts an upload to plain RGB.
pub fn texture_payload_to_rgb(width: i32, height: i32, format: u32, ty: u32, payload: &[u8]) -> (r:
    Option<Vec<u8>>)
    ensures
        match r {
            Some(v) => rgb_of(width, height, format, ty, payload@) == Some(v@),
            None => rgb_of(width, height, format, ty, payload@) is None,
        },
{
    let count = pixel_count(width, height)?;
    count.checked_mul(3)?;
    let layout = layout(format, ty)?;
    let size = layout.bytes_per_pixel();
    let whole = payload.len() / size;
    if count > whole {
        return None;
    }
    let mut out: Vec<u8> = Vec::new();
    let mut i: usize = 0;
    while i < count
        invariant
            i <= count <= whole,
            payload@.len() <= usize::MAX,
            whole == payload@.len() as int / layout.size(),
            size == layout.size(),
            out@ =~= rgb_bytes(layout, payload@, i as int),
        decreases count - i,
    {
        proof {
            pixel_inside(layout, payload@.len() as int, i as int);
        }
        let pixel = slice_subrange(payload, i * size, i * size + size);
        let (red, green, blue) = layout.to_rgb(pixel);
        let ghost levels = layout.rgb(pixel@);
        assert(levels == seq![red, green, blue]);
        assert(levels[0] == red && levels[1] == green && levels[2] == blue);
        out.push(red);
        out.push(green);
        out.push(blue);
        i += 1;
    }
    Some(out)
}

/// The RGB form of an upload has three bytes for each pixel.
pub proof fn rgb_has_three_bytes_a_pixel(
    width: i32,
    height: i32,
    format: u32,
    ty: u32,
    payload: Seq<u8>,
)
    ensures
        rgb_of(width, height, format, ty, payload) is Some ==> rgb_of(
            width,
            height,
            format,
            ty,
            payload,
        )->0.len() == 3 * (width * height),
{
}

} // verus!
