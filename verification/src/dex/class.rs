//! Class definitions and the table that holds them.

use super::table::{
    map_is_finite, map_of, place_is_first, place_of, push_adds, update_replaces, MemberKey,
    MemberName, MemberTable,
};
use crate::strings::{same_text, texts};
use vstd::prelude::*;

verus! {

/// The access flag of static members.
pub const ACC_STATIC: u32 = 0x0008;

/// The access flag of native methods.
pub const ACC_NATIVE: u32 = 0x0100;

/// The access flag of interfaces.
pub const ACC_INTERFACE: u32 = 0x0200;

/// A method definition.
#[derive(Debug, Clone, Copy, PartialEq, Eq, Structural)]
pub struct DexMethod {
    pub access_flags: u32,
    /// Whether the method is called without looking it up: constructors,
    /// private and static methods.
    pub is_direct: bool,
}

/// A class definition.
#[derive(Debug, Clone)]
pub struct DexClass {
    pub access_flags: u32,
    pub superclass: Option<String>,
    pub interfaces: Vec<String>,
    pub methods: MemberTable<DexMethod>,
    pub fields: MemberTable<u32>,
}

/// A [`DexClass`] as a mathematical value.
#[verifier::ext_equal]
pub struct ClassView {
    pub access_flags: u32,
    pub superclass: Option<Seq<char>>,
    pub interfaces: Seq<Seq<char>>,
    pub methods: Map<MemberName, DexMethod>,
    pub fields: Map<MemberName, u32>,
}

/// A text that may be there.
pub open spec fn optional_text(s: Option<String>) -> Option<Seq<char>> {
    match s {
        Some(s) => Some(s@),
        None => None,
    }
}

impl View for DexClass {
    type V = ClassView;

    open spec fn view(&self) -> ClassView {
        ClassView {
            access_flags: self.access_flags,
            superclass: optional_text(self.superclass),
            interfaces: texts(self.interfaces@),
            methods: self.methods@,
            fields: self.fields@,
        }
    }
}

impl ClassView {
    /// A class with nothing in it.
    pub open spec fn empty(access_flags: u32, superclass: Option<Seq<char>>) -> ClassView {
        ClassView {
            access_flags,
            superclass,
            interfaces: Seq::empty(),
            methods: Map::empty(),
            fields: Map::empty(),
        }
    }
}

impl DexClass {
    /// A class with nothing in it.
    pub fn new(access_flags: u32, superclass: Option<String>) -> (r: Self)
        ensures
            r@ == ClassView::empty(access_flags, optional_text(superclass)),
    {
        let r = DexClass {
            access_flags,
            superclass,
            interfaces: Vec::new(),
            methods: MemberTable::new(),
            fields: MemberTable::new(),
        };
        assert(r@ =~= ClassView::empty(access_flags, optional_text(superclass)));
        r
    }
}

/// Classes by descriptor.
pub type Classes = Map<Seq<char>, ClassView>;

/// Class definitions by descriptor.
#[derive(Debug, Clone)]
pub struct ClassTable {
    entries: Vec<(String, DexClass)>,
}

spec fn class_keys(entries: Seq<(String, DexClass)>) -> Seq<Seq<char>> {
    entries.map_values(|e: (String, DexClass)| e.0@)
}

spec fn class_values(entries: Seq<(String, DexClass)>) -> Seq<ClassView> {
    entries.map_values(|e: (String, DexClass)| e.1@)
}

impl View for ClassTable {
    type V = Classes;

    closed spec fn view(&self) -> Classes {
        map_of(class_keys(self.entries@), class_values(self.entries@))
    }
}

impl ClassTable {
    /// The descriptors in the order in which they were put in.
    pub closed spec fn descriptors(&self) -> Seq<Seq<char>> {
        class_keys(self.entries@)
    }

    /// A table has finitely many classes, and their descriptors are those listed.
    pub proof fn is_finite(&self)
        ensures
            self@.dom() == self.descriptors().to_set(),
            self@.dom().finite(),
    {
        map_is_finite(class_keys(self.entries@), class_values(self.entries@));
    }

    /// No classes.
    pub fn new() -> (r: Self)
        ensures
            r@ == Classes::empty(),
    {
        let r = ClassTable { entries: Vec::new() };
        assert(r@ =~= Classes::empty());
        r
    }

    /// The number of listed descriptors.
    pub fn len(&self) -> (r: usize)
        ensures
            r == self.descriptors().len(),
    {
        self.entries.len()
    }

    /// A listed descriptor.
    pub fn descriptor(&self, i: usize) -> (r: &str)
        requires
            i < self.descriptors().len(),
        ensures
            r@ == self.descriptors()[i as int],
    {
        self.entries[i].0.as_str()
    }

    fn find(&self, descriptor: &str) -> (r: usize)
        ensures
            r == place_of(class_keys(self.entries@), descriptor@, 0),
            r <= self.entries@.len(),
            r < self.entries@.len() <==> self@.contains_key(descriptor@),
    {
        let ghost keys = class_keys(self.entries@);
        let mut i: usize = 0;
        while i < self.entries.len()
            invariant
                i <= self.entries@.len(),
                keys == class_keys(self.entries@),
                place_of(keys, descriptor@, 0) == place_of(keys, descriptor@, i as int),
            decreases self.entries@.len() - i,
        {
            assert(keys[i as int] == self.entries@[i as int].0@);
            if same_text(self.entries[i].0.as_str(), descriptor) {
                return i;
            }
            i += 1;
        }
        i
    }

    /// Whether there is a class with a descriptor.
    pub fn contains(&self, descriptor: &str) -> (r: bool)
        ensures
            r == self@.contains_key(descriptor@),
    {
        self.find(descriptor) < self.entries.len()
    }

    /// The class with a descriptor.
    pub fn get(&self, descriptor: &str) -> (r: Option<&DexClass>)
        ensures
            match r {
                Some(class) => self@.contains_key(descriptor@) && self@[descriptor@] == class@,
                None => !self@.contains_key(descriptor@),
            },
    {
        let i = self.find(descriptor);
        if i < self.entries.len() {
            assert(class_values(self.entries@)[i as int] == self.entries@[i as int].1@);
            Some(&self.entries[i].1)
        } else {
            None
        }
    }

    /// Puts a class in, in place of one with its descriptor.
    pub fn insert(&mut self, descriptor: String, class: DexClass)
        ensures
            final(self)@ == old(self)@.insert(descriptor@, class@),
    {
        let i = self.find(descriptor.as_str());
        let ghost keys = class_keys(self.entries@);
        let ghost values = class_values(self.entries@);
        if i < self.entries.len() {
            proof {
                update_replaces(keys, values, descriptor@, class@);
                place_is_first(keys, descriptor@, 0);
            }
            self.entries.set(i, (descriptor, class));
            assert(class_keys(self.entries@) =~= keys);
            assert(class_values(self.entries@) =~= values.update(i as int, class@));
        } else {
            proof {
                push_adds(keys, values, descriptor@, class@);
            }
            self.entries.push((descriptor, class));
            assert(class_keys(self.entries@) =~= keys.push(descriptor@));
            assert(class_values(self.entries@) =~= values.push(class@));
        }
    }

    proof fn changed(&self, before: &ClassTable, i: int, class: ClassView)
        requires
            0 <= i < before.entries@.len(),
            i == place_of(before.descriptors(), before.descriptors()[i], 0),
            self.entries@.len() == before.entries@.len(),
            self.entries@[i].0@ == before.entries@[i].0@,
            self.entries@[i].1@ == class,
            forall|k: int|
                0 <= k < before.entries@.len() && k != i ==> self.entries@[k] == before.entries@[k],
        ensures
            self@ == before@.insert(before.descriptors()[i], class),
    {
        let keys = class_keys(before.entries@);
        let values = class_values(before.entries@);
        update_replaces(keys, values, keys[i], class);
        assert(class_keys(self.entries@) =~= keys);
        assert(class_values(self.entries@) =~= values.update(i, class));
    }

    /// Adds flags to a class.
    pub fn add_flags(&mut self, descriptor: &str, flags: u32)
        requires
            old(self)@.contains_key(descriptor@),
        ensures
            final(self)@ == old(self)@.insert(
                descriptor@,
                ClassView {
                    access_flags: old(self)@[descriptor@].access_flags | flags,
                    ..old(self)@[descriptor@]
                },
            ),
    {
        let i = self.find(descriptor);
        proof {
            place_is_first(class_keys(self.entries@), descriptor@, 0);
        }
        self.entries[i].1.access_flags = self.entries[i].1.access_flags | flags;
        proof {
            self.changed(old(self), i as int, self.entries@[i as int].1@);
        }
    }

    /// Adds an interface to a class.
    pub fn add_interface(&mut self, descriptor: &str, interface: String)
        requires
            old(self)@.contains_key(descriptor@),
        ensures
            final(self)@ == old(self)@.insert(
                descriptor@,
                ClassView {
                    interfaces: old(self)@[descriptor@].interfaces.push(interface@),
                    ..old(self)@[descriptor@]
                },
            ),
    {
        let i = self.find(descriptor);
        proof {
            place_is_first(class_keys(self.entries@), descriptor@, 0);
        }
        self.entries[i].1.interfaces.push(interface);
        proof {
            let was = old(self).entries@[i as int].1;
            let now = self.entries@[i as int].1;
            assert(texts(now.interfaces@) =~= texts(was.interfaces@).push(interface@));
            self.changed(old(self), i as int, now@);
        }
    }

    /// Puts a method into a class.
    pub fn insert_method(&mut self, descriptor: &str, key: MemberKey, method: DexMethod)
        requires
            old(self)@.contains_key(descriptor@),
        ensures
            final(self)@ == old(self)@.insert(
                descriptor@,
                ClassView {
                    methods: old(self)@[descriptor@].methods.insert(key@, method),
                    ..old(self)@[descriptor@]
                },
            ),
    {
        let i = self.find(descriptor);
        proof {
            place_is_first(class_keys(self.entries@), descriptor@, 0);
        }
        self.entries[i].1.methods.insert(key, method);
        proof {
            self.changed(old(self), i as int, self.entries@[i as int].1@);
        }
    }

    /// Puts a field into a class.
    pub fn insert_field(&mut self, descriptor: &str, key: MemberKey, flags: u32)
        requires
            old(self)@.contains_key(descriptor@),
        ensures
            final(self)@ == old(self)@.insert(
                descriptor@,
                ClassView {
                    fields: old(self)@[descriptor@].fields.insert(key@, flags),
                    ..old(self)@[descriptor@]
                },
            ),
    {
        let i = self.find(descriptor);
        proof {
            place_is_first(class_keys(self.entries@), descriptor@, 0);
        }
        self.entries[i].1.fields.insert(key, flags);
        proof {
            self.changed(old(self), i as int, self.entries@[i as int].1@);
        }
    }
}

} // verus!
