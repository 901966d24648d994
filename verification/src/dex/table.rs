//! Lists that are looked up by key, as finite maps.

use crate::strings::same_text;
use vstd::prelude::*;

verus! {

/// The first place from `from` on that holds `key`, or the length.
pub open spec fn place_of<K>(keys: Seq<K>, key: K, from: int) -> int
    decreases keys.len() - from,
{
    if from >= keys.len() || keys[from] == key {
        from
    } else {
        place_of(keys, key, from + 1)
    }
}

/// The map of a list of keys and a list of their values. The first of two equal
/// keys counts.
pub open spec fn map_of<K, V>(keys: Seq<K>, values: Seq<V>) -> Map<K, V> {
    Map::new(
        |key: K| place_of(keys, key, 0) < keys.len(),
        |key: K| values[place_of(keys, key, 0)],
    )
}

/// The place lies where it says, with other keys before it.
pub proof fn place_is_first<K>(keys: Seq<K>, key: K, from: int)
    requires
        0 <= from <= keys.len(),
    ensures
        from <= place_of(keys, key, from) <= keys.len(),
        place_of(keys, key, from) < keys.len() ==> keys[place_of(keys, key, from)] == key,
        forall|i: int| from <= i < place_of(keys, key, from) ==> keys[i] != key,
    decreases keys.len() - from,
{
    if from < keys.len() && keys[from] != key {
        place_is_first(keys, key, from + 1);
    }
}

proof fn place_after_push<K>(keys: Seq<K>, new: K, key: K, from: int)
    requires
        0 <= from <= keys.len(),
    ensures
        place_of(keys.push(new), key, from) == if place_of(keys, key, from) < keys.len() || new
            == key {
            place_of(keys, key, from)
        } else {
            keys.len() as int + 1
        },
    decreases keys.len() - from,
{
    let after = keys.push(new);
    if from < keys.len() {
        assert(after[from] == keys[from]);
        if keys[from] != key {
            place_after_push(keys, new, key, from + 1);
        }
    } else {
        assert(after[from] == new);
        assert(place_of(after, key, from + 1) == from + 1);
    }
}

/// Putting a new key behind a list adds it to the map.
pub proof fn push_adds<K, V>(keys: Seq<K>, values: Seq<V>, key: K, value: V)
    requires
        keys.len() == values.len(),
        place_of(keys, key, 0) == keys.len(),
    ensures
        map_of(keys.push(key), values.push(value)) == map_of(keys, values).insert(key, value),
{
    let before = map_of(keys, values).insert(key, value);
    let after = map_of(keys.push(key), values.push(value));
    assert forall|k: K| before.contains_key(k) == #[trigger] after.contains_key(k) by {
        place_is_first(keys, k, 0);
        place_after_push(keys, key, k, 0);
    }
    assert forall|k: K| after.contains_key(k) implies before[k] == #[trigger] after[k] by {
        place_is_first(keys, k, 0);
        place_after_push(keys, key, k, 0);
    }
    assert(before =~= after);
}

/// Replacing the value of a key replaces it in the map.
pub proof fn update_replaces<K, V>(keys: Seq<K>, values: Seq<V>, key: K, value: V)
    requires
        keys.len() == values.len(),
        place_of(keys, key, 0) < keys.len(),
    ensures
        map_of(keys, values.update(place_of(keys, key, 0), value)) == map_of(keys, values).insert(
            key,
            value,
        ),
{
    let at = place_of(keys, key, 0);
    let before = map_of(keys, values).insert(key, value);
    let after = map_of(keys, values.update(at, value));
    assert forall|k: K| after.contains_key(k) implies before[k] == #[trigger] after[k] by {
        place_is_first(keys, k, 0);
        place_is_first(keys, key, 0);
    }
    assert(before =~= after);
}

/// A list has finitely many keys, and they are the keys of the map.
pub proof fn map_is_finite<K, V>(keys: Seq<K>, values: Seq<V>)
    ensures
        map_of(keys, values).dom() == keys.to_set(),
        map_of(keys, values).dom().finite(),
{
    let dom = map_of(keys, values).dom();
    assert forall|key: K| dom.contains(key) == keys.to_set().contains(key) by {
        place_is_first(keys, key, 0);
        if keys.contains(key) {
            let i = keys.index_of(key);
            assert(keys[i] == key);
        }
        if dom.contains(key) {
            assert(keys[place_of(keys, key, 0)] == key);
        }
    }
    assert(dom =~= keys.to_set());
    vstd::seq_lib::seq_to_set_is_finite(keys);
}

/// The name and the descriptor of a member.
#[derive(Debug, Clone, PartialEq, Eq)]
pub struct MemberKey {
    pub name: String,
    pub descriptor: String,
}

/// A [`MemberKey`] as a mathematical value: name and descriptor.
pub type MemberName = (Seq<char>, Seq<char>);

impl View for MemberKey {
    type V = MemberName;

    open spec fn view(&self) -> MemberName {
        (self.name@, self.descriptor@)
    }
}

/// Members by name and descriptor.
#[derive(Debug, Clone)]
pub struct MemberTable<V: Copy> {
    entries: Vec<(MemberKey, V)>,
}

spec fn member_keys<V: Copy>(entries: Seq<(MemberKey, V)>) -> Seq<MemberName> {
    entries.map_values(|e: (MemberKey, V)| e.0@)
}

spec fn member_values<V: Copy>(entries: Seq<(MemberKey, V)>) -> Seq<V> {
    entries.map_values(|e: (MemberKey, V)| e.1)
}

impl<V: Copy> View for MemberTable<V> {
    type V = Map<MemberName, V>;

    closed spec fn view(&self) -> Map<MemberName, V> {
        map_of(member_keys(self.entries@), member_values(self.entries@))
    }
}

impl<V: Copy> MemberTable<V> {
    /// No members.
    pub fn new() -> (r: Self)
        ensures
            r@ == Map::<MemberName, V>::empty(),
    {
        let r = MemberTable { entries: Vec::new() };
        assert(r@ =~= Map::<MemberName, V>::empty());
        r
    }

    fn find(&self, key: &MemberKey) -> (r: usize)
        ensures
            r == place_of(member_keys(self.entries@), key@, 0),
            r <= self.entries@.len(),
            r < self.entries@.len() <==> self@.contains_key(key@),
    {
        let ghost keys = member_keys(self.entries@);
        let mut i: usize = 0;
        while i < self.entries.len()
            invariant
                i <= self.entries@.len(),
                keys == member_keys(self.entries@),
                place_of(keys, key@, 0) == place_of(keys, key@, i as int),
            decreases self.entries@.len() - i,
        {
            assert(keys[i as int] == self.entries@[i as int].0@);
            if same_text(self.entries[i].0.name.as_str(), key.name.as_str()) && same_text(
                self.entries[i].0.descriptor.as_str(),
                key.descriptor.as_str(),
            ) {
                return i;
            }
            i += 1;
        }
        i
    }

    /// The member with a key.
    pub fn get(&self, key: &MemberKey) -> (r: Option<V>)
        ensures
            r == if self@.contains_key(key@) {
                Some(self@[key@])
            } else {
                None
            },
    {
        let i = self.find(key);
        if i < self.entries.len() {
            Some(self.entries[i].1)
        } else {
            None
        }
    }

    /// Puts a member in, and says whether it replaced one.
    pub fn insert(&mut self, key: MemberKey, value: V) -> (r: bool)
        ensures
            final(self)@ == old(self)@.insert(key@, value),
            r == old(self)@.contains_key(key@),
    {
        let i = self.find(&key);
        let ghost keys = member_keys(self.entries@);
        let ghost values = member_values(self.entries@);
        if i < self.entries.len() {
            proof {
                update_replaces(keys, values, key@, value);
                place_is_first(keys, key@, 0);
            }
            self.entries.set(i, (key, value));
            assert(member_keys(self.entries@) =~= keys);
            assert(member_values(self.entries@) =~= values.update(i as int, value));
            true
        } else {
            proof {
                push_adds(keys, values, key@, value);
            }
            self.entries.push((key, value));
            assert(member_keys(self.entries@) =~= keys.push(key@));
            assert(member_values(self.entries@) =~= values.push(value));
            false
        }
    }
}

} // verus!
