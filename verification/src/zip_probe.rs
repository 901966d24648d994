//! The directory of a ZIP archive and its stored entries.

use crate::bytes::{u16_at, u16_le, u32_at, u32_le};
use crate::strings::{same_text, utf8_text};
use crate::text::{dec, dec_text, join};
use vstd::prelude::*;
use vstd::slice::slice_subrange;
use vstd::string::StringExecFns;
use vstd::utf8::{decode_utf8, valid_utf8};

verus! {

/// How the data of an entry is kept.
#[derive(Debug, Clone, Copy, PartialEq, Eq, Structural)]
pub enum ZipCompression {
    Stored,
    Deflated,
    Other(u16),
}

/// An entry of the directory.
#[derive(Debug, Clone, PartialEq, Eq)]
pub struct ZipEntry {
    pub name: String,
    pub compression: ZipCompression,
    pub compressed_size: u64,
    pub uncompressed_size: u64,
    pub local_header_offset: u64,
}

/// Why an archive cannot be read.
#[derive(Debug, Clone, PartialEq, Eq)]
pub enum ZipProbeError {
    NotZip,
    Truncated(&'static str),
    Invalid(&'static str),
    UnsupportedCompression(ZipCompression),
}

/// A [`ZipEntry`] as a mathematical value.
pub struct ZipEntryView {
    pub name: Seq<char>,
    pub compression: ZipCompression,
    pub compressed_size: u64,
    pub uncompressed_size: u64,
    pub local_header_offset: u64,
}

impl View for ZipEntry {
    type V = ZipEntryView;

    open spec fn view(&self) -> ZipEntryView {
        ZipEntryView {
            name: self.name@,
            compression: self.compression,
            compressed_size: self.compressed_size,
            uncompressed_size: self.uncompressed_size,
            local_header_offset: self.local_header_offset,
        }
    }
}

/// The views of a list of entries.
pub open spec fn entry_views(v: Seq<ZipEntry>) -> Seq<ZipEntryView> {
    v.map_values(|e: ZipEntry| e@)
}

/// A [`ZipProbeError`] as a mathematical value.
pub enum ZipProbeErrorView {
    NotZip,
    Truncated(Seq<char>),
    Invalid(Seq<char>),
    UnsupportedCompression(ZipCompression),
}

impl View for ZipProbeError {
    type V = ZipProbeErrorView;

    open spec fn view(&self) -> ZipProbeErrorView {
        match self {
            ZipProbeError::NotZip => ZipProbeErrorView::NotZip,
            ZipProbeError::Truncated(what) => ZipProbeErrorView::Truncated(what@),
            ZipProbeError::Invalid(what) => ZipProbeErrorView::Invalid(what@),
            ZipProbeError::UnsupportedCompression(c) => ZipProbeErrorView::UnsupportedCompression(
                *c,
            ),
        }
    }
}

impl ZipCompression {
    /// The name of this method.
    pub open spec fn text(self) -> Seq<char> {
        match self {
            ZipCompression::Stored => "stored"@,
            ZipCompression::Deflated => "deflated"@,
            ZipCompression::Other(v) => "method "@ + dec_text(v as nat),
        }
    }

    /// The name of this method.
    pub fn to_string(&self) -> (r: String)
        ensures
            r@ == self.text(),
    {
        match self {
            ZipCompression::Stored => String::from_str("stored"),
            ZipCompression::Deflated => String::from_str("deflated"),
            ZipCompression::Other(v) => join("method ", dec(*v as u64).as_str()),
        }
    }
}

impl ZipProbeErrorView {
    /// The message for this error.
    pub open spec fn text(self) -> Seq<char> {
        match self {
            ZipProbeErrorView::NotZip => "not a ZIP file"@,
            ZipProbeErrorView::Truncated(what) => "truncated ZIP "@ + what,
            ZipProbeErrorView::Invalid(what) => "invalid ZIP "@ + what,
            ZipProbeErrorView::UnsupportedCompression(c) => "unsupported ZIP compression: "@
                + c.text(),
        }
    }
}

impl ZipProbeError {
    /// The message for this error.
    pub fn to_string(&self) -> (r: String)
        ensures
            r@ == self@.text(),
    {
        match self {
            ZipProbeError::NotZip => String::from_str("not a ZIP file"),
            ZipProbeError::Truncated(what) => join("truncated ZIP ", what),
            ZipProbeError::Invalid(what) => join("invalid ZIP ", what),
            ZipProbeError::UnsupportedCompression(c) => join(
                "unsupported ZIP compression: ",
                c.to_string().as_str(),
            ),
        }
    }
}

/// A result with its error taken by view.
pub type Checked<T> = core::result::Result<T, ZipProbeErrorView>;

/// Whether the end record of the directory stands at `at`.
pub open spec fn ends_at(b: Seq<u8>, at: int) -> bool {
    0 <= at && at + 22 <= b.len() && u32_at(b, at) == 0x0605_4b50
}

/// The last place at or before `at` where an end record stands, or -1.
pub open spec fn last_end(b: Seq<u8>, at: int) -> int
    decreases at + 1,
{
    if at < 0 {
        -1
    } else if ends_at(b, at) {
        at
    } else {
        last_end(b, at - 1)
    }
}

/// The compression of a method number.
pub open spec fn compression_of(method: u16) -> ZipCompression {
    match method {
        0 => ZipCompression::Stored,
        8 => ZipCompression::Deflated,
        other => ZipCompression::Other(other),
    }
}

/// The length of the directory entry at `at`.
pub open spec fn entry_len(b: Seq<u8>, at: int) -> int {
    46 + u16_at(b, at + 28) + u16_at(b, at + 30) + u16_at(b, at + 32)
}

/// The directory entry at `at`.
pub open spec fn entry_at(b: Seq<u8>, at: int) -> Checked<ZipEntryView> {
    if at + 46 > b.len() {
        Err(ZipProbeErrorView::Truncated("directory"@))
    } else if u32_at(b, at) != 0x0201_4b50 {
        Err(ZipProbeErrorView::Invalid("directory entry"@))
    } else if at + entry_len(b, at) > b.len() {
        Err(ZipProbeErrorView::Truncated("directory"@))
    } else {
        let name = b.subrange(at + 46, at + 46 + u16_at(b, at + 28));
        if !valid_utf8(name) {
            Err(ZipProbeErrorView::Invalid("entry name"@))
        } else {
            Ok(
                ZipEntryView {
                    name: decode_utf8(name),
                    compression: compression_of(u16_at(b, at + 10)),
                    compressed_size: u32_at(b, at + 20) as u64,
                    uncompressed_size: u32_at(b, at + 24) as u64,
                    local_header_offset: u32_at(b, at + 42) as u64,
                },
            )
        }
    }
}

/// `acc` and the next `left` directory entries from `at` on.
pub open spec fn entries_from(b: Seq<u8>, at: int, left: int, acc: Seq<ZipEntryView>) -> Checked<
    Seq<ZipEntryView>,
>
    decreases left,
{
    if left <= 0 {
        Ok(acc)
    } else {
        match entry_at(b, at) {
            Err(e) => Err(e),
            Ok(entry) => entries_from(b, at + entry_len(b, at), left - 1, acc.push(entry)),
        }
    }
}

/// The directory of an archive, in its order.
pub open spec fn entries_of(b: Seq<u8>) -> Checked<Seq<ZipEntryView>> {
    let end = last_end(b, b.len() - 22);
    if end < 0 {
        Err(ZipProbeErrorView::NotZip)
    } else {
        entries_from(b, u32_at(b, end + 16) as int, u16_at(b, end + 10) as int, Seq::empty())
    }
}

/// The data of an entry: its bytes follow its local header. Only stored entries
/// give their data; a compressed one gives an error that names its compression.
pub open spec fn data_of(b: Seq<u8>, entry: ZipEntryView) -> Checked<Seq<u8>> {
    let at = entry.local_header_offset as int;
    if at + 30 > b.len() {
        Err(ZipProbeErrorView::Truncated("local header"@))
    } else if u32_at(b, at) != 0x0403_4b50 {
        Err(ZipProbeErrorView::Invalid("local header"@))
    } else {
        let start = at + 30 + u16_at(b, at + 26) + u16_at(b, at + 28);
        if start + entry.compressed_size > b.len() {
            Err(ZipProbeErrorView::Truncated("entry data"@))
        } else if entry.compression != ZipCompression::Stored {
            Err(ZipProbeErrorView::UnsupportedCompression(entry.compression))
        } else if entry.compressed_size != entry.uncompressed_size {
            Err(ZipProbeErrorView::Invalid("stored size"@))
        } else {
            Ok(b.subrange(start, start + entry.compressed_size))
        }
    }
}

/// What comes out of an entry has the size that the directory gives.
pub proof fn data_has_the_stated_size(b: Seq<u8>, entry: ZipEntryView)
    ensures
        data_of(b, entry) is Ok ==> data_of(b, entry)->Ok_0.len() == entry.uncompressed_size,
{
}

fn u16_in(b: &[u8], off: usize) -> (r: u16)
    requires
        off + 2 <= b@.len(),
    ensures
        r == u16_at(b@, off as int),
{
    match u16_le(b, off) {
        Some(v) => v,
        None => 0,
    }
}

fn u32_in(b: &[u8], off: usize) -> (r: u32)
    requires
        off + 4 <= b@.len(),
    ensures
        r == u32_at(b@, off as int),
{
    match u32_le(b, off) {
        Some(v) => v,
        None => 0,
    }
}

fn find_end(b: &[u8]) -> (r: Option<usize>)
    ensures
        match r {
            Some(at) => at == last_end(b@, b@.len() - 22) && at + 22 <= b@.len() <= usize::MAX,
            None => last_end(b@, b@.len() - 22) < 0,
        },
{
    if b.len() < 22 {
        return None;
    }
    let mut at: usize = b.len() - 22;
    loop
        invariant
            at + 22 <= b@.len() <= usize::MAX,
            last_end(b@, b@.len() - 22) == last_end(b@, at as int),
        decreases at,
    {
        if u32_in(b, at) == 0x0605_4b50 {
            return Some(at);
        }
        if at == 0 {
            assert(last_end(b@, -1) == -1);
            return None;
        }
        at -= 1;
    }
}

fn compression(method: u16) -> (r: ZipCompression)
    ensures
        r == compression_of(method),
{
    match method {
        0 => ZipCompression::Stored,
        8 => ZipCompression::Deflated,
        other => ZipCompression::Other(other),
    }
}

/// Reads the directory entry at `at` and where the next one stands.
fn parse_entry(b: &[u8], at: usize) -> (r: Result<(ZipEntry, usize), ZipProbeError>)
    ensures
        match r {
            Ok((entry, next)) => entry_at(b@, at as int) == Ok::<ZipEntryView, ZipProbeErrorView>(
                entry@,
            ) && next == at + entry_len(b@, at as int),
            Err(e) => entry_at(b@, at as int) == Err::<ZipEntryView, ZipProbeErrorView>(e@),
        },
{
    if b.len() < 46 || at > b.len() - 46 {
        return Err(ZipProbeError::Truncated("directory"));
    }
    if u32_in(b, at) != 0x0201_4b50 {
        return Err(ZipProbeError::Invalid("directory entry"));
    }
    let name_len = u16_in(b, at + 28) as usize;
    let len = 46 + name_len + u16_in(b, at + 30) as usize + u16_in(b, at + 32) as usize;
    if len > b.len() - at {
        return Err(ZipProbeError::Truncated("directory"));
    }
    let name = match utf8_text(slice_subrange(b, at + 46, at + 46 + name_len)) {
        Some(name) => String::from_str(name),
        None => return Err(ZipProbeError::Invalid("entry name")),
    };
    Ok(
        (
            ZipEntry {
                name,
                compression: compression(u16_in(b, at + 10)),
                compressed_size: u32_in(b, at + 20) as u64,
                uncompressed_size: u32_in(b, at + 24) as u64,
                local_header_offset: u32_in(b, at + 42) as u64,
            },
            at + len,
        ),
    )
}

/// Reads the directory of an archive.
#[verifier::loop_isolation(false)]
pub fn parse_zip_entries(bytes: &[u8]) -> (r: Result<Vec<ZipEntry>, ZipProbeError>)
    ensures
        match r {
            Ok(v) => entries_of(bytes@) == Ok::<Seq<ZipEntryView>, ZipProbeErrorView>(
                entry_views(v@),
            ),
            Err(e) => entries_of(bytes@) == Err::<Seq<ZipEntryView>, ZipProbeErrorView>(e@),
        },
{
    let end = match find_end(bytes) {
        Some(end) => end,
        None => return Err(ZipProbeError::NotZip),
    };
    let mut left = u16_in(bytes, end + 10);
    let mut at = u32_in(bytes, end + 16) as usize;
    let mut out: Vec<ZipEntry> = Vec::new();
    assert(entry_views(out@) =~= Seq::empty());
    while left > 0
        invariant
            entries_of(bytes@) == entries_from(
                bytes@,
                at as int,
                left as int,
                entry_views(out@),
            ),
        decreases left,
    {
        let (entry, next) = parse_entry(bytes, at)?;
        assert(entry_views(out@.push(entry)) =~= entry_views(out@).push(entry@));
        out.push(entry);
        at = next;
        left -= 1;
    }
    Ok(out)
}

/// Takes the data of a stored entry out of an archive. Compressed entries are
/// refused.
pub fn extract_parsed_zip_entry(bytes: &[u8], entry: &ZipEntry) -> (r: Result<
    Vec<u8>,
    ZipProbeError,
>)
    ensures
        match r {
            Ok(v) => data_of(bytes@, entry@) == Ok::<Seq<u8>, ZipProbeErrorView>(v@),
            Err(e) => data_of(bytes@, entry@) == Err::<Seq<u8>, ZipProbeErrorView>(e@),
        },
{
    if bytes.len() < 30 || entry.local_header_offset > (bytes.len() - 30) as u64 {
        return Err(ZipProbeError::Truncated("local header"));
    }
    let at = entry.local_header_offset as usize;
    if u32_in(bytes, at) != 0x0403_4b50 {
        return Err(ZipProbeError::Invalid("local header"));
    }
    let header = 30 + u16_in(bytes, at + 26) as usize + u16_in(bytes, at + 28) as usize;
    if header > bytes.len() - at {
        return Err(ZipProbeError::Truncated("entry data"));
    }
    let start = at + header;
    if entry.compressed_size > (bytes.len() - start) as u64 {
        return Err(ZipProbeError::Truncated("entry data"));
    }
    if entry.compression != ZipCompression::Stored {
        return Err(ZipProbeError::UnsupportedCompression(entry.compression));
    }
    if entry.compressed_size != entry.uncompressed_size {
        return Err(ZipProbeError::Invalid("stored size"));
    }
    let size = entry.compressed_size as usize;
    let mut out: Vec<u8> = Vec::new();
    let mut i: usize = 0;
    while i < size
        invariant
            i <= size,
            start + size <= bytes@.len() <= usize::MAX,
            out@ =~= bytes@.subrange(start as int, start + i),
        decreases size - i,
    {
        out.push(bytes[start + i]);
        i += 1;
    }
    Ok(out)
}

/// Finds the first entry with a name.
pub fn find_zip_entry(entries: &[ZipEntry], name: &str) -> (r: Option<usize>)
    ensures
        match r {
            Some(i) => i < entries@.len() && entries@[i as int].name@ == name@ && forall|k: int|
                0 <= k < i ==> entries@[k].name@ != name@,
            None => forall|k: int| 0 <= k < entries@.len() ==> entries@[k].name@ != name@,
        },
{
    let mut i: usize = 0;
    while i < entries.len()
        invariant
            i <= entries@.len(),
            forall|k: int| 0 <= k < i ==> entries@[k].name@ != name@,
        decreases entries@.len() - i,
    {
        if same_text(entries[i].name.as_str(), name) {
            return Some(i);
        }
        i += 1;
    }
    None
}

} // verus!
