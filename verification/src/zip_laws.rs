//! What the directory of an archive means.

use crate::bytes::{fields_are_numbers, pair_at, quad_at};
use crate::zip_probe::{
    data_of, entries_from, entries_of, entry_at, entry_len, last_end, ZipCompression,
    ZipEntryView, ZipProbeErrorView,
};
use vstd::prelude::*;
use vstd::utf8::{decode_utf8, valid_utf8};

verus! {

/// Whether an end record stands at `at`.
pub open spec fn end_record(b: Seq<u8>, at: int) -> bool {
    &&& 0 <= at
    &&& at + 22 <= b.len()
    &&& b[at] == 0x50 && b[at + 1] == 0x4b && b[at + 2] == 5 && b[at + 3] == 6
}

proof fn last_record(b: Seq<u8>, at: int)
    ensures
        ({
            let end = last_end(b, at);
            &&& end >= -1
            &&& end >= 0 ==> end <= at && end_record(b, end)
            &&& forall|i: int| end < i <= at ==> !end_record(b, i)
        }),
    decreases at + 1,
{
    if at >= 0 {
        fields_are_numbers(b, at);
        last_record(b, at - 1);
    }
}

/// The end record of an archive is the last one in the file; without one there is no
/// archive.
pub proof fn archives_end_last(b: Seq<u8>)
    ensures
        entries_of(b) == Err::<Seq<ZipEntryView>, ZipProbeErrorView>(ZipProbeErrorView::NotZip) || (exists|
            at: int,
        | #[trigger]
            end_record(b, at) && at == last_end(b, b.len() - 22) && (forall|i: int|
                at < i ==> !#[trigger] end_record(b, i))),
        (forall|i: int| !#[trigger] end_record(b, i)) ==> entries_of(b) == Err::<
            Seq<ZipEntryView>,
            ZipProbeErrorView,
        >(ZipProbeErrorView::NotZip),
{
    last_record(b, b.len() - 22);
    let at = last_end(b, b.len() - 22);
    if at >= 0 {
        assert(end_record(b, at));
    }
}

/// Where entry `k` of a directory starts: each entry is as long as its fixed part, name,
/// extra field and comment together.
pub open spec fn entry_place(b: Seq<u8>, at: int, k: nat) -> int
    decreases k,
{
    if k == 0 {
        at
    } else {
        let p = entry_place(b, at, (k - 1) as nat);
        p + 46 + pair_at(b, p + 28) + pair_at(b, p + 30) + pair_at(b, p + 32)
    }
}

proof fn next_places(b: Seq<u8>, at: int, k: nat)
    ensures
        entry_place(b, entry_place(b, at, 1), k) == entry_place(b, at, k + 1),
    decreases k,
{
    reveal_with_fuel(entry_place, 2);
    if k > 0 {
        next_places(b, at, (k - 1) as nat);
    }
}

/// Whether an entry is what a directory says at `p`.
pub open spec fn describes(b: Seq<u8>, p: int, e: ZipEntryView) -> bool {
    let name = b.subrange(p + 46, p + 46 + pair_at(b, p + 28));
    &&& b[p] == 0x50 && b[p + 1] == 0x4b && b[p + 2] == 1 && b[p + 3] == 2
    &&& valid_utf8(name) && e.name == decode_utf8(name)
    &&& match e.compression {
        ZipCompression::Stored => pair_at(b, p + 10) == 0,
        ZipCompression::Deflated => pair_at(b, p + 10) == 8,
        ZipCompression::Other(n) => pair_at(b, p + 10) == n && n != 0 && n != 8,
    }
    &&& e.compressed_size == quad_at(b, p + 20)
    &&& e.uncompressed_size == quad_at(b, p + 24)
    &&& e.local_header_offset == quad_at(b, p + 42)
}

proof fn one_entry(b: Seq<u8>, p: int)
    requires
        entry_at(b, p) is Ok,
    ensures
        describes(b, p, entry_at(b, p)->Ok_0),
        entry_len(b, p) == 46 + pair_at(b, p + 28) + pair_at(b, p + 30) + pair_at(b, p + 32),
{
    fields_are_numbers(b, p);
    fields_are_numbers(b, p + 10);
    fields_are_numbers(b, p + 20);
    fields_are_numbers(b, p + 24);
    fields_are_numbers(b, p + 28);
    fields_are_numbers(b, p + 30);
    fields_are_numbers(b, p + 32);
    fields_are_numbers(b, p + 42);
}

proof fn entry_list(b: Seq<u8>, at: int, left: nat, acc: Seq<ZipEntryView>, out: Seq<ZipEntryView>)
    requires
        entries_from(b, at, left as int, acc) == Ok::<Seq<ZipEntryView>, ZipProbeErrorView>(out),
    ensures
        out.len() == acc.len() + left,
        forall|k: int| 0 <= k < acc.len() ==> #[trigger] out[k] == acc[k],
        forall|k: int|
            acc.len() <= k < out.len() ==> describes(
                b,
                entry_place(b, at, (k - acc.len()) as nat),
                #[trigger] out[k],
            ),
    decreases left,
{
    if left > 0 {
        let e = entry_at(b, at)->Ok_0;
        one_entry(b, at);
        let next = at + entry_len(b, at);
        reveal_with_fuel(entry_place, 2);
        assert(next == entry_place(b, at, 1));
        entry_list(b, next, (left - 1) as nat, acc.push(e), out);
        assert forall|k: int| acc.len() <= k < out.len() implies describes(
            b,
            entry_place(b, at, (k - acc.len()) as nat),
            #[trigger] out[k],
        ) by {
            if k > acc.len() {
                next_places(b, at, (k - acc.len() - 1) as nat);
            } else {
                assert(out[k] == acc.push(e)[k]);
            }
        }
        assert forall|k: int| 0 <= k < acc.len() implies #[trigger] out[k] == acc[k] by {
            assert(out[k] == acc.push(e)[k]);
        }
    }
}

/// The entries of an archive are as many as its end record says, and entry `k` is what
/// the directory says at its place.
pub proof fn directory_entries(b: Seq<u8>, out: Seq<ZipEntryView>)
    requires
        entries_of(b) == Ok::<Seq<ZipEntryView>, ZipProbeErrorView>(out),
    ensures
        ({
            let end = last_end(b, b.len() - 22);
            &&& out.len() == pair_at(b, end + 10)
            &&& forall|k: int|
                0 <= k < out.len() ==> describes(
                    b,
                    entry_place(b, quad_at(b, end + 16), k as nat),
                    #[trigger] out[k],
                )
        }),
{
    let end = last_end(b, b.len() - 22);
    fields_are_numbers(b, end + 10);
    fields_are_numbers(b, end + 16);
    entry_list(b, quad_at(b, end + 16), pair_at(b, end + 10) as nat, Seq::empty(), out);
}

/// The data of a stored entry are the bytes behind its local header, name and extra field.
pub proof fn stored_data(b: Seq<u8>, e: ZipEntryView, data: Seq<u8>)
    requires
        data_of(b, e) == Ok::<Seq<u8>, ZipProbeErrorView>(data),
    ensures
        ({
            let at = e.local_header_offset as int;
            let start = at + 30 + pair_at(b, at + 26) + pair_at(b, at + 28);
            &&& b[at] == 0x50 && b[at + 1] == 0x4b && b[at + 2] == 3 && b[at + 3] == 4
            &&& e.compression is Stored
            &&& data.len() == e.compressed_size && e.compressed_size == e.uncompressed_size
            &&& forall|i: int| 0 <= i < data.len() ==> #[trigger] data[i] == b[start + i]
        }),
{
    let at = e.local_header_offset as int;
    fields_are_numbers(b, at);
    fields_are_numbers(b, at + 26);
    fields_are_numbers(b, at + 28);
}

} // verus!
