//! What the numbers and member lists of a DEX file mean.

use super::class::{ClassView, DexMethod};
use super::file::{uleb, uleb_from, DexIndexErrorView, Tables};
use super::table::MemberName;
use vstd::prelude::*;

verus! {

/// The number that `n` bytes make in little-endian base 128, each byte giving
/// its low seven bits.
pub open spec fn base_128(b: Seq<u8>, at: int, n: int) -> int
    decreases n,
{
    if n <= 0 {
        0
    } else {
        b[at] as int % 128 + 128 * base_128(b, at + 1, n - 1)
    }
}

proof fn next_digit(value: u32, x: u8)
    ensures
        (x & 0x80 == 0) == (x < 0x80),
        (x & 0xf0 != 0) == (x >= 0x10),
        value < 1 ==> value | (((x & 0x7f) as u32) << 0u32) == value + x % 128,
        value < 0x80 ==> value | (((x & 0x7f) as u32) << 7u32) == value + 0x80 * (x % 128),
        value < 0x4000 ==> value | (((x & 0x7f) as u32) << 14u32) == value + 0x4000 * (x % 128),
        value < 0x20_0000 ==> value | (((x & 0x7f) as u32) << 21u32) == value + 0x20_0000 * (x
            % 128),
        value < 0x1000_0000 && x < 0x10 ==> value | (((x & 0x7f) as u32) << 28u32) == value
            + 0x1000_0000 * (x % 128),
{
    assert((x & 0x80 == 0) == (x < 0x80) && (x & 0xf0 != 0) == (x >= 0x10) && (value < 1 ==> value | (((x
        & 0x7f) as u32) << 0u32) == value + x % 128) && (value < 0x80 ==> value | (((x & 0x7f) as u32)
        << 7u32) == value + 0x80 * (x % 128)) && (value < 0x4000 ==> value | (((x & 0x7f) as u32)
        << 14u32) == value + 0x4000 * (x % 128)) && (value < 0x20_0000 ==> value | (((x & 0x7f)
        as u32) << 21u32) == value + 0x20_0000 * (x % 128)) && (value < 0x1000_0000 && x < 0x10
        ==> value | (((x & 0x7f) as u32) << 28u32) == value + 0x1000_0000 * (x % 128)))
        by (bit_vector);
}

/// The weight of digit `k`.
pub open spec fn weight(k: int) -> int {
    if k == 0 {
        1
    } else if k == 1 {
        0x80
    } else if k == 2 {
        0x4000
    } else if k == 3 {
        0x20_0000
    } else {
        0x1000_0000
    }
}

proof fn numbers_from(b: Seq<u8>, cursor: int, k: int, value: u32)
    requires
        0 <= cursor,
        0 <= k <= 4,
        value < weight(k),
    ensures
        match uleb_from(b, cursor, k, value) {
            Ok((v, end)) => {
                &&& cursor < end <= b.len()
                &&& end - cursor <= 5 - k
                &&& v == value + weight(k) * base_128(b, cursor, end - cursor)
                &&& b[end - 1] < 0x80
                &&& forall|j: int| cursor <= j < end - 1 ==> (#[trigger] b[j]) >= 0x80
                &&& end - cursor == 5 - k ==> b[end - 1] < 0x10
            },
            Err(_) => forall|n: int|
                #![trigger b[cursor + n - 1]]
                1 <= n <= 5 - k && cursor + n <= b.len() && b[cursor + n - 1] < 0x80 && (n == 5 - k
                    ==> b[cursor + n - 1] < 0x10) ==> exists|j: int|
                    cursor <= j < cursor + n - 1 && (#[trigger] b[j]) < 0x80,
        },
    decreases 5 - k,
{
    reveal_with_fuel(base_128, 2);
    reveal_with_fuel(uleb_from, 2);
    if cursor < b.len() {
        let x = b[cursor];
        next_digit(value, x);
        if !(k == 4 && x >= 0x10) {
            let next = value | (((x & 0x7f) as u32) << ((7 * k) as u32));
            assert(next == value + weight(k) * (x as int % 128));
            if x >= 0x80 {
                if k < 4 {
                    numbers_from(b, cursor + 1, k + 1, next);
                    match uleb_from(b, cursor + 1, k + 1, next) {
                        Ok((v, end)) => {
                            let rest = base_128(b, cursor + 1, end - cursor - 1);
                            assert(base_128(b, cursor, end - cursor) == x as int % 128 + 128 * rest);
                            let (w, d) = (weight(k), x as int % 128);
                            assert(weight(k + 1) == w * 128);
                            assert(w * d + (w * 128) * rest == w * (d + 128 * rest))
                                by (nonlinear_arith);
                        },
                        Err(_) => {
                            assert forall|n: int|
                                #![trigger b[cursor + n - 1]]
                                1 <= n <= 5 - k && cursor + n <= b.len() && b[cursor + n - 1] < 0x80
                                    && (n == 5 - k ==> b[cursor + n - 1] < 0x10) implies exists|
                                j: int,
                            |
                                cursor <= j < cursor + n - 1 && (#[trigger] b[j]) < 0x80 by {
                                assert(b[(cursor + 1) + (n - 1) - 1] < 0x80);
                            }
                        },
                    }
                }
            } else {
                assert(base_128(b, cursor + 1, 0) == 0);
                assert(base_128(b, cursor, 1) == x as int % 128);
            }
        } else {
            assert(uleb_from(b, cursor, k, value) is Err);
        }
    }
}

/// A variable-length number is the number that the low seven bits of its bytes
/// make in base 128, low ones first. All of its bytes but the last have the top
/// bit set, there are at most five, and the fifth is below sixteen: a number that
/// is written so inside the file is read.
pub proof fn variable_length_numbers(b: Seq<u8>, cursor: int)
    requires
        0 <= cursor,
    ensures
        match uleb(b, cursor) {
            Ok((v, end)) => {
                &&& cursor < end <= b.len()
                &&& end - cursor <= 5
                &&& v == base_128(b, cursor, end - cursor)
                &&& b[end - 1] < 0x80
                &&& forall|j: int| cursor <= j < end - 1 ==> (#[trigger] b[j]) >= 0x80
                &&& end - cursor == 5 ==> b[end - 1] < 0x10
            },
            Err(_) => forall|n: int|
                #![trigger b[cursor + n - 1]]
                1 <= n <= 5 && cursor + n <= b.len() && b[cursor + n - 1] < 0x80 && (n == 5
                    ==> b[cursor + n - 1] < 0x10) ==> exists|j: int|
                    cursor <= j < cursor + n - 1 && (#[trigger] b[j]) < 0x80,
        },
{
    numbers_from(b, cursor, 0, 0);
}

/// The number that stands at `at`.
pub open spec fn number_at(b: Seq<u8>, at: int) -> int {
    match uleb(b, at) {
        Ok((v, _)) => v as int,
        Err(_) => 0,
    }
}

/// Where the number at `at` ends.
pub open spec fn behind(b: Seq<u8>, at: int) -> int {
    match uleb(b, at) {
        Ok((_, end)) => end,
        Err(_) => at,
    }
}

/// Where `count` numbers from `at` on end.
pub open spec fn behind_many(b: Seq<u8>, at: int, count: nat) -> int
    decreases count,
{
    if count == 0 {
        at
    } else {
        behind_many(b, behind(b, at), (count - 1) as nat)
    }
}

/// Where entry `k` of a list starts whose entries are `width` numbers each.
pub open spec fn entry_start(b: Seq<u8>, at: int, width: nat, k: nat) -> int
    decreases k,
{
    if k == 0 {
        at
    } else {
        behind_many(b, entry_start(b, at, width, (k - 1) as nat), width)
    }
}

/// The sum of the differences of entries 0 to `k`: the identifier of entry `k`.
pub open spec fn identifier(b: Seq<u8>, at: int, width: nat, k: nat) -> int
    decreases k,
{
    number_at(b, entry_start(b, at, width, k)) + if k == 0 {
        0
    } else {
        identifier(b, at, width, (k - 1) as nat)
    }
}

/// The flags of entry `k`, which stand behind its difference.
pub open spec fn flags_of(b: Seq<u8>, at: int, width: nat, k: nat) -> int {
    number_at(b, behind(b, entry_start(b, at, width, k)))
}

proof fn entries_of_the_rest(b: Seq<u8>, at: int, width: nat, k: nat)
    ensures
        entry_start(b, behind_many(b, at, width), width, k) == entry_start(b, at, width, k + 1),
        identifier(b, at, width, k + 1) == number_at(b, at) + identifier(
            b,
            behind_many(b, at, width),
            width,
            k,
        ),
        flags_of(b, behind_many(b, at, width), width, k) == flags_of(b, at, width, k + 1),
    decreases k,
{
    reveal_with_fuel(entry_start, 2);
    reveal_with_fuel(identifier, 2);
    if k > 0 {
        entries_of_the_rest(b, at, width, (k - 1) as nat);
    }
}

/// The name and type of the field that entry `k` of a list stands for.
pub open spec fn listed_field(t: Tables, at: int, owner: Seq<char>, first: int, k: nat) -> MemberName {
    t.field_key((first + identifier(t.bytes, at, 2, k)) as u32, owner)->Ok_0
}

/// Whether a list of encoded fields, after identifier `first`, turns the fields
/// `before` into `after`: entry `k` stands for the field whose identifier is the
/// sum of the differences up to it, with the flags behind its difference, and
/// nothing else is added.
pub open spec fn lists_fields(
    t: Tables,
    at: int,
    count: nat,
    owner: Seq<char>,
    first: int,
    before: Map<MemberName, u32>,
    after: Map<MemberName, u32>,
) -> bool {
    &&& forall|k: nat|
        k < count ==> {
            let id = first + #[trigger] identifier(t.bytes, at, 2, k);
            let key = listed_field(t, at, owner, first, k);
            &&& 0 <= id < t.field_ids.len()
            &&& id <= u32::MAX
            &&& t.field_key(id as u32, owner) is Ok
            &&& !before.contains_key(key)
            &&& after.contains_key(key)
            &&& after[key] == flags_of(t.bytes, at, 2, k)
        }
    &&& forall|key: MemberName| #[trigger]
        before.contains_key(key) ==> after.contains_key(key) && after[key] == before[key]
    &&& forall|key: MemberName| #[trigger]
        after.contains_key(key) ==> before.contains_key(key) || exists|k: nat|
            k < count && key == #[trigger] listed_field(t, at, owner, first, k)
    &&& forall|j: nat, k: nat|
        j < k < count ==> #[trigger] listed_field(t, at, owner, first, j)
            != #[trigger] listed_field(t, at, owner, first, k)
}

/// A list of encoded fields that is read holds, as entry `k`, the field whose
/// identifier is the sum of the first `k + 1` differences, with the flags that
/// stand behind its difference. The fields after it are those and the fields
/// before it, and the list ends behind its last entry.
pub proof fn encoded_fields(
    t: Tables,
    at: int,
    count: nat,
    first: u32,
    owner: Seq<char>,
    before: Map<MemberName, u32>,
)
    ensures
        match t.fields_from(at, count as int, first, owner, before) {
            Ok((end, after)) => end == entry_start(t.bytes, at, 2, count) && lists_fields(
                t,
                at,
                count,
                owner,
                first as int,
                before,
                after,
            ),
            Err(_) => true,
        },
    decreases count,
{
    let b = t.bytes;
    reveal_with_fuel(behind_many, 3);
    if count > 0 && t.fields_from(at, count as int, first, owner, before) is Ok {
        let id = (first + number_at(b, at)) as u32;
        let next = behind_many(b, at, 2);
        let flags = number_at(b, behind(b, at)) as u32;
        let key0 = t.field_key(id, owner)->Ok_0;
        let with_one = before.insert(key0, flags);
        let rest = (count - 1) as nat;
        assert(t.fields_from(at, count as int, first, owner, before) == t.fields_from(
            next,
            rest as int,
            id,
            owner,
            with_one,
        ));
        encoded_fields(t, next, rest, id, owner, with_one);
        let (end, after) = t.fields_from(at, count as int, first, owner, before)->Ok_0;
        entries_of_the_rest(b, at, 2, rest);
        assert(entry_start(b, at, 2, 0) == at);
        assert(identifier(b, at, 2, 0) == number_at(b, at));
        assert(listed_field(t, at, owner, first as int, 0) == key0);
        assert forall|k: nat| k < rest implies #[trigger] listed_field(t, next, owner, id as int, k)
            == listed_field(t, at, owner, first as int, k + 1) by {
            entries_of_the_rest(b, at, 2, k);
        }
        assert forall|k: nat| k < count implies ({
            let id1 = first + #[trigger] identifier(b, at, 2, k);
            let key = listed_field(t, at, owner, first as int, k);
            &&& 0 <= id1 < t.field_ids.len()
            &&& id1 <= u32::MAX
            &&& t.field_key(id1 as u32, owner) is Ok
            &&& !before.contains_key(key)
            &&& after.contains_key(key)
            &&& after[key] == flags_of(b, at, 2, k)
        }) by {
            if k > 0 {
                let j = (k - 1) as nat;
                entries_of_the_rest(b, at, 2, j);
                assert(id + identifier(b, next, 2, j) == first + identifier(b, at, 2, k));
                assert(listed_field(t, next, owner, id as int, j) == listed_field(
                    t,
                    at,
                    owner,
                    first as int,
                    k,
                ));
            } else {
                assert(with_one.contains_key(key0));
            }
        }
        assert forall|key: MemberName| #[trigger] after.contains_key(key) implies before.contains_key(
            key,
        ) || exists|k: nat|
            k < count && key == #[trigger] listed_field(t, at, owner, first as int, k) by {
            if !before.contains_key(key) {
                if key == key0 {
                    assert(key == listed_field(t, at, owner, first as int, 0));
                } else {
                    assert(!with_one.contains_key(key));
                    let k = choose|k: nat|
                        k < rest && key == #[trigger] listed_field(t, next, owner, id as int, k);
                    assert(key == listed_field(t, at, owner, first as int, k + 1));
                }
            }
        }
        assert forall|key: MemberName| #[trigger] before.contains_key(key) implies after.contains_key(
            key,
        ) && after[key] == before[key] by {
            assert(with_one.contains_key(key));
        }
        assert forall|j: nat, k: nat| j < k < count implies #[trigger] listed_field(
            t,
            at,
            owner,
            first as int,
            j,
        ) != #[trigger] listed_field(t, at, owner, first as int, k) by {
            let k1 = (k - 1) as nat;
            assert(listed_field(t, next, owner, id as int, k1) == listed_field(
                t,
                at,
                owner,
                first as int,
                k,
            ));
            assert(id + identifier(b, next, 2, k1) == id + identifier(b, next, 2, k1));
            if j > 0 {
                let j1 = (j - 1) as nat;
                assert(listed_field(t, next, owner, id as int, j1) == listed_field(
                    t,
                    at,
                    owner,
                    first as int,
                    j,
                ));
            } else {
                assert(with_one.contains_key(key0));
            }
        }
    }
}

/// The name and descriptor of the method that entry `k` of a list stands for.
pub open spec fn listed_method(t: Tables, at: int, owner: Seq<char>, first: int, k: nat) -> MemberName {
    t.method_key((first + identifier(t.bytes, at, 3, k)) as u32, owner)->Ok_0
}

/// Whether a list of encoded methods, after identifier `first`, turns the methods
/// `before` into `after`: entry `k` stands for the method whose identifier is the
/// sum of the differences up to it, with the flags behind its difference, and
/// nothing else is added.
pub open spec fn lists_methods(
    t: Tables,
    at: int,
    count: nat,
    owner: Seq<char>,
    first: int,
    direct: bool,
    before: Map<MemberName, DexMethod>,
    after: Map<MemberName, DexMethod>,
) -> bool {
    &&& forall|k: nat|
        k < count ==> {
            let id = first + #[trigger] identifier(t.bytes, at, 3, k);
            let key = listed_method(t, at, owner, first, k);
            &&& 0 <= id < t.method_ids.len()
            &&& id <= u32::MAX
            &&& t.method_key(id as u32, owner) is Ok
            &&& !before.contains_key(key)
            &&& after.contains_key(key)
            &&& after[key].access_flags == flags_of(t.bytes, at, 3, k)
            &&& after[key].is_direct == direct
        }
    &&& forall|key: MemberName| #[trigger]
        before.contains_key(key) ==> after.contains_key(key) && after[key] == before[key]
    &&& forall|key: MemberName| #[trigger]
        after.contains_key(key) ==> before.contains_key(key) || exists|k: nat|
            k < count && key == #[trigger] listed_method(t, at, owner, first, k)
    &&& forall|j: nat, k: nat|
        j < k < count ==> #[trigger] listed_method(t, at, owner, first, j)
            != #[trigger] listed_method(t, at, owner, first, k)
}

/// A list of encoded methods that is read holds, as entry `k`, the method whose
/// identifier is the sum of the first `k + 1` differences, with the flags that
/// stand behind its difference. The methods after it are those and the methods
/// before it, and the list ends behind its last entry.
pub proof fn encoded_methods(
    t: Tables,
    at: int,
    count: nat,
    first: u32,
    owner: Seq<char>,
    direct: bool,
    before: Map<MemberName, DexMethod>,
)
    ensures
        match t.methods_from(at, count as int, first, owner, direct, before) {
            Ok((end, after)) => end == entry_start(t.bytes, at, 3, count) && lists_methods(
                t,
                at,
                count,
                owner,
                first as int,
                direct,
                before,
                after,
            ),
            Err(_) => true,
        },
    decreases count,
{
    let b = t.bytes;
    reveal_with_fuel(behind_many, 4);
    if count > 0 && t.methods_from(at, count as int, first, owner, direct, before) is Ok {
        let id = (first + number_at(b, at)) as u32;
        let next = behind_many(b, at, 3);
        let flags = number_at(b, behind(b, at)) as u32;
        let key0 = t.method_key(id, owner)->Ok_0;
        let with_one = before.insert(key0, DexMethod { access_flags: flags, is_direct: direct });
        let rest = (count - 1) as nat;
        assert(t.methods_from(at, count as int, first, owner, direct, before) == t.methods_from(
            next,
            rest as int,
            id,
            owner,
            direct,
            with_one,
        ));
        encoded_methods(t, next, rest, id, owner, direct, with_one);
        let (end, after) = t.methods_from(at, count as int, first, owner, direct, before)->Ok_0;
        entries_of_the_rest(b, at, 3, rest);
        assert(entry_start(b, at, 3, 0) == at);
        assert(identifier(b, at, 3, 0) == number_at(b, at));
        assert(listed_method(t, at, owner, first as int, 0) == key0);
        assert forall|k: nat| k < rest implies #[trigger] listed_method(t, next, owner, id as int, k)
            == listed_method(t, at, owner, first as int, k + 1) by {
            entries_of_the_rest(b, at, 3, k);
        }
        assert forall|k: nat| k < count implies ({
            let id1 = first + #[trigger] identifier(b, at, 3, k);
            let key = listed_method(t, at, owner, first as int, k);
            &&& 0 <= id1 < t.method_ids.len()
            &&& id1 <= u32::MAX
            &&& t.method_key(id1 as u32, owner) is Ok
            &&& !before.contains_key(key)
            &&& after.contains_key(key)
            &&& after[key].access_flags == flags_of(b, at, 3, k)
            &&& after[key].is_direct == direct
        }) by {
            if k > 0 {
                let j = (k - 1) as nat;
                entries_of_the_rest(b, at, 3, j);
                assert(id + identifier(b, next, 3, j) == first + identifier(b, at, 3, k));
                assert(listed_method(t, next, owner, id as int, j) == listed_method(
                    t,
                    at,
                    owner,
                    first as int,
                    k,
                ));
            } else {
                assert(with_one.contains_key(key0));
            }
        }
        assert forall|key: MemberName| #[trigger] after.contains_key(key) implies before.contains_key(
            key,
        ) || exists|k: nat|
            k < count && key == #[trigger] listed_method(t, at, owner, first as int, k) by {
            if !before.contains_key(key) {
                if key == key0 {
                    assert(key == listed_method(t, at, owner, first as int, 0));
                } else {
                    assert(!with_one.contains_key(key));
                    let k = choose|k: nat|
                        k < rest && key == #[trigger] listed_method(t, next, owner, id as int, k);
                    assert(key == listed_method(t, at, owner, first as int, k + 1));
                }
            }
        }
        assert forall|key: MemberName| #[trigger] before.contains_key(key) implies after.contains_key(
            key,
        ) && after[key] == before[key] by {
            assert(with_one.contains_key(key));
        }
        assert forall|j: nat, k: nat| j < k < count implies #[trigger] listed_method(
            t,
            at,
            owner,
            first as int,
            j,
        ) != #[trigger] listed_method(t, at, owner, first as int, k) by {
            let k1 = (k - 1) as nat;
            assert(listed_method(t, next, owner, id as int, k1) == listed_method(
                t,
                at,
                owner,
                first as int,
                k,
            ));
            assert(id + identifier(b, next, 3, k1) == id + identifier(b, next, 3, k1));
            if j > 0 {
                let j1 = (j - 1) as nat;
                assert(listed_method(t, next, owner, id as int, j1) == listed_method(
                    t,
                    at,
                    owner,
                    first as int,
                    j,
                ));
            } else {
                assert(with_one.contains_key(key0));
            }
        }
    }
}

/// Count `k` at the start of class data.
pub open spec fn count_at(b: Seq<u8>, at: int, k: nat) -> nat {
    number_at(b, behind_many(b, at, k)) as nat
}

/// Where list `k` of class data starts: the first behind the four counts, each
/// other one behind the list before it.
pub open spec fn list_start(b: Seq<u8>, at: int, k: nat) -> int {
    let c0 = behind_many(b, at, 4);
    let c1 = entry_start(b, c0, 2, count_at(b, at, 0));
    let c2 = entry_start(b, c1, 2, count_at(b, at, 1));
    if k == 0 {
        c0
    } else if k == 1 {
        c1
    } else if k == 2 {
        c2
    } else {
        entry_start(b, c2, 3, count_at(b, at, 2))
    }
}

/// The four lists of class data follow four counts and each other. Static and
/// instance fields become the fields of the class, and direct and virtual methods
/// its methods; identifiers start anew in each list.
pub proof fn class_data(t: Tables, offset: u32, owner: Seq<char>, class: ClassView, out: ClassView)
    requires
        t.with_data(offset, owner, class) == Ok::<ClassView, DexIndexErrorView>(out),
    ensures
        out == (ClassView { fields: out.fields, methods: out.methods, ..class }),
        exists|f: Map<MemberName, u32>| #[trigger]
            lists_fields(
                t,
                list_start(t.bytes, offset as int, 0),
                count_at(t.bytes, offset as int, 0),
                owner,
                0,
                class.fields,
                f,
            ) && lists_fields(
                t,
                list_start(t.bytes, offset as int, 1),
                count_at(t.bytes, offset as int, 1),
                owner,
                0,
                f,
                out.fields,
            ),
        exists|f: Map<MemberName, DexMethod>| #[trigger]
            lists_methods(
                t,
                list_start(t.bytes, offset as int, 2),
                count_at(t.bytes, offset as int, 2),
                owner,
                0,
                true,
                class.methods,
                f,
            ) && lists_methods(
                t,
                list_start(t.bytes, offset as int, 3),
                count_at(t.bytes, offset as int, 3),
                owner,
                0,
                false,
                f,
                out.methods,
            ),
{
    let b = t.bytes;
    let at = offset as int;
    reveal_with_fuel(behind_many, 5);
    let (n0, n1, n2, n3, c0) = t.counts_at(at)->Ok_0;
    assert(behind_many(b, at, 1) == behind(b, at));
    assert(behind_many(b, at, 2) == behind(b, behind(b, at)));
    assert(behind_many(b, at, 3) == behind(b, behind(b, behind(b, at))));
    encoded_fields(t, c0, n0 as nat, 0, owner, class.fields);
    let (c1, f1) = t.fields_from(c0, n0 as int, 0, owner, class.fields)->Ok_0;
    encoded_fields(t, c1, n1 as nat, 0, owner, f1);
    let (c2, f2) = t.fields_from(c1, n1 as int, 0, owner, f1)->Ok_0;
    encoded_methods(t, c2, n2 as nat, 0, owner, true, class.methods);
    let (c3, m1) = t.methods_from(c2, n2 as int, 0, owner, true, class.methods)->Ok_0;
    encoded_methods(t, c3, n3 as nat, 0, owner, false, m1);
    assert(c0 == list_start(b, at, 0) && c1 == list_start(b, at, 1));
    assert(c2 == list_start(b, at, 2) && c3 == list_start(b, at, 3));
    assert(n0 as nat == count_at(b, at, 0) && n1 as nat == count_at(b, at, 1));
    assert(n2 as nat == count_at(b, at, 2) && n3 as nat == count_at(b, at, 3));
    assert(lists_fields(t, c0, n0 as nat, owner, 0, class.fields, f1));
    assert(lists_methods(t, c2, n2 as nat, owner, 0, true, class.methods, m1));
}

} // verus!
