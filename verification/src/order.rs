//! Ordering things by their names.

use crate::strings::chars_of;
use vstd::prelude::*;

verus! {

/// Whether `a` comes before `b` in the order of their characters.
pub open spec fn before(a: Seq<char>, b: Seq<char>) -> bool
    decreases a.len(),
{
    if b.len() == 0 {
        false
    } else if a.len() == 0 {
        true
    } else if a[0] != b[0] {
        a[0] < b[0]
    } else {
        before(a.drop_first(), b.drop_first())
    }
}

/// Nothing comes before itself, and what comes before what comes before a text
/// comes before the text.
pub proof fn before_is_transitive(a: Seq<char>, b: Seq<char>, c: Seq<char>)
    ensures
        !before(a, a),
        before(a, b) && before(b, c) ==> before(a, c),
    decreases a.len(),
{
    if a.len() > 0 {
        before_is_transitive(a.drop_first(), a.drop_first(), a.drop_first());
        if b.len() > 0 && c.len() > 0 {
            before_is_transitive(a.drop_first(), b.drop_first(), c.drop_first());
        }
    }
}

/// Of two different texts one comes before the other.
pub proof fn before_is_total(a: Seq<char>, b: Seq<char>)
    ensures
        before(a, b) || before(b, a) || a == b,
    decreases a.len(),
{
    if a.len() == 0 && b.len() == 0 {
        assert(a =~= b);
    } else if a.len() > 0 && b.len() > 0 && a[0] == b[0] {
        before_is_total(a.drop_first(), b.drop_first());
        if a.drop_first() == b.drop_first() {
            assert(a =~= seq![a[0]] + a.drop_first());
            assert(b =~= seq![b[0]] + b.drop_first());
        }
    }
}

/// Whether `a` comes before `b`.
pub fn comes_before(a: &str, b: &str) -> (r: bool)
    ensures
        r == before(a@, b@),
{
    let left = chars_of(a);
    let right = chars_of(b);
    let mut i: usize = 0;
    assert(left@.skip(0) =~= left@);
    assert(right@.skip(0) =~= right@);
    while i < left.len() && i < right.len()
        invariant
            left@ == a@,
            right@ == b@,
            i <= left@.len(),
            i <= right@.len(),
            before(a@, b@) == before(left@.skip(i as int), right@.skip(i as int)),
        decreases left@.len() - i,
    {
        assert(left@.skip(i as int).drop_first() =~= left@.skip(i + 1));
        assert(right@.skip(i as int).drop_first() =~= right@.skip(i + 1));
        if left[i] != right[i] {
            return left[i] < right[i];
        }
        i += 1;
    }
    i < right.len()
}

/// The first place from `from` on whose name does not come before `name`, or
/// the length.
pub open spec fn place(names: Seq<Seq<char>>, name: Seq<char>, from: int) -> int
    decreases names.len() - from,
{
    if from >= names.len() || !before(names[from], name) {
        from
    } else {
        place(names, name, from + 1)
    }
}

/// The place lies where it says, with smaller names before it.
pub proof fn place_is_first(names: Seq<Seq<char>>, name: Seq<char>, from: int)
    requires
        0 <= from <= names.len(),
    ensures
        from <= place(names, name, from) <= names.len(),
        place(names, name, from) < names.len() ==> !before(
            names[place(names, name, from)],
            name,
        ),
        forall|i: int| from <= i < place(names, name, from) ==> before(#[trigger] names[i], name),
    decreases names.len() - from,
{
    if from < names.len() && before(names[from], name) {
        place_is_first(names, name, from + 1);
    }
}

/// A list ordered by name, where things of one name keep their order.
pub open spec fn by_name<T>(list: Seq<T>, name: spec_fn(T) -> Seq<char>) -> Seq<T>
    decreases list.len(),
{
    if list.len() == 0 {
        Seq::empty()
    } else {
        let rest = by_name(list.drop_first(), name);
        rest.insert(place(rest.map_values(name), name(list[0]), 0), list[0])
    }
}

/// Whether no name comes before one that stands earlier.
pub open spec fn ordered(names: Seq<Seq<char>>) -> bool {
    forall|i: int, j: int|
        #![trigger names[i], names[j]]
        0 <= i < j < names.len() ==> !before(names[j], names[i])
}

/// Putting a name at its place keeps a list ordered.
pub proof fn inserting_keeps_order(names: Seq<Seq<char>>, name: Seq<char>)
    requires
        ordered(names),
    ensures
        ordered(names.insert(place(names, name, 0), name)),
{
    let p = place(names, name, 0);
    place_is_first(names, name, 0);
    let after = names.insert(p, name);
    assert forall|i: int, j: int|
        #![trigger after[i], after[j]]
        0 <= i < j < after.len() implies !before(after[j], after[i]) by {
        if j == p {
            assert(after[i] == names[i]);
            before_is_transitive(name, names[i], name);
        } else if i == p {
            assert(after[j] == names[j - 1]);
            if before(names[j - 1], name) {
                before_is_total(names[p], name);
                before_is_transitive(names[j - 1], name, names[p]);
                before_is_transitive(names[p], names[p], names[p]);
                assert(j - 1 >= p);
                if j - 1 > p {
                    assert(!before(names[j - 1], names[p]));
                }
            }
        } else {
            let i0 = if i < p {
                i
            } else {
                i - 1
            };
            let j0 = if j < p {
                j
            } else {
                j - 1
            };
            assert(after[i] == names[i0] && after[j] == names[j0]);
        }
    }
}

/// Ordering by name gives an ordered list of the same things.
pub proof fn by_name_is_ordered<T>(list: Seq<T>, name: spec_fn(T) -> Seq<char>)
    ensures
        ordered(by_name(list, name).map_values(name)),
        by_name(list, name).to_multiset() == list.to_multiset(),
        by_name(list, name).len() == list.len(),
    decreases list.len(),
{
    broadcast use vstd::seq_lib::group_to_multiset_ensures;

    if list.len() == 0 {
        assert(by_name(list, name) =~= list);
    } else {
        let rest = by_name(list.drop_first(), name);
        by_name_is_ordered(list.drop_first(), name);
        let names = rest.map_values(name);
        let p = place(names, name(list[0]), 0);
        place_is_first(names, name(list[0]), 0);
        inserting_keeps_order(names, name(list[0]));
        assert(rest.insert(p, list[0]).map_values(name) =~= names.insert(p, name(list[0])));
        vstd::seq_lib::to_multiset_insert(rest, p, list[0]);
        assert(list =~= seq![list[0]] + list.drop_first());
        assert(list =~= list.drop_first().insert(0, list[0]));
        vstd::seq_lib::to_multiset_insert(list.drop_first(), 0, list[0]);
    }
}

} // verus!
