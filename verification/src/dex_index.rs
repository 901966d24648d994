//! An index of the classes of an application package, with the lookups that
//! native code makes in it.

use crate::dex::class::{ClassTable, Classes, DexClass, DexMethod, ACC_INTERFACE, ACC_NATIVE, ACC_STATIC};
use crate::dex::class::{optional_text, ClassView};
use crate::dex::lookup::{
    above_arrays, assignable, class_known, closed_sets_hold_what_is_reached, edge, found,
    interface_steps, is_array, is_interface, is_static, next_up, parents, primitive, reaches,
    reaches_itself, reaches_one_more, resolved, search, steps_from, steps_need_a_universe, universe,
    unvisited, verdict, visiting_makes_progress, walk, wanted_of, Outcome, Step, Verdict, Wanted,
};
use crate::dex::platform::{
    platform_class_known, platform_is_interface, platform_member_staticness, platform_superclass,
};
use crate::dex::table::{MemberKey, MemberName};
use crate::dex::file::{add_dex, with_dex};
use crate::order::{before, before_is_transitive, by_name, comes_before, place};
use crate::strings::{chars_of, same_text, stands_at, text_stands_at, text_view, texts};
use crate::zip_probe::{
    data_of, entries_of, entry_views, extract_parsed_zip_entry, parse_zip_entries, ZipEntry,
    ZipEntryView,
};
use vstd::prelude::*;
use vstd::string::{StrSliceExecFns, StringExecFns};

pub use crate::dex::file::{DexIndexError, DexIndexErrorView};
pub use crate::dex::platform::DexMemberKind;

verus! {

/// Where a member was found.
#[derive(Debug, Clone, PartialEq, Eq)]
pub struct ResolvedDexMember {
    pub declaring_class: String,
}

/// The classes of an application package.
#[derive(Debug, Clone)]
pub struct ApkDexIndex {
    classes: ClassTable,
}

impl View for ApkDexIndex {
    type V = Classes;

    closed spec fn view(&self) -> Classes {
        self.classes@
    }
}

/// How a walk up ended.
enum Walked {
    Found(String),
    Refused,
    Looped,
    Exhausted,
}

impl Walked {
    spec fn outcome(&self) -> Outcome {
        match self {
            Walked::Found(class) => Outcome::Found(class@),
            Walked::Refused => Outcome::Refused,
            Walked::Looped => Outcome::Looped,
            Walked::Exhausted => Outcome::Exhausted,
        }
    }
}

/// Where a member was found, by value.
pub open spec fn declaring(r: Option<ResolvedDexMember>) -> Option<Seq<char>> {
    match r {
        Some(member) => Some(member.declaring_class@),
        None => None,
    }
}

/// The names in a list.
spec fn names_in(v: Seq<String>) -> Set<Seq<char>> {
    texts(v).to_set()
}

proof fn names_after_push(v: Seq<String>, s: String)
    ensures
        names_in(v.push(s)) == names_in(v).insert(s@),
{
    let after = texts(v.push(s));
    assert(after =~= texts(v).push(s@));
    assert forall|x: Seq<char>| names_in(v.push(s)).contains(x) == names_in(v).insert(s@).contains(
        x,
    ) by {
        if texts(v).contains(x) {
            let i = texts(v).index_of(x);
            assert(after[i] == x);
        }
        assert(after[v.len() as int] == s@);
        if after.contains(x) && x != s@ {
            let i = after.index_of(x);
            assert(texts(v)[i] == x);
        }
    }
    assert(names_in(v.push(s)) =~= names_in(v).insert(s@));
}

fn holds(v: &Vec<String>, s: &str) -> (r: bool)
    ensures
        r == names_in(v@).contains(s@),
{
    let mut i: usize = 0;
    while i < v.len()
        invariant
            i <= v@.len(),
            forall|k: int| 0 <= k < i ==> v@[k]@ != s@,
        decreases v@.len() - i,
    {
        if same_text(v[i].as_str(), s) {
            assert(texts(v@)[i as int] == s@);
            return true;
        }
        i += 1;
    }
    proof {
        if texts(v@).contains(s@) {
            let k = texts(v@).index_of(s@);
            assert(v@[k]@ == s@);
        }
    }
    false
}

/// A step that is still to be taken.
struct PendingStep {
    name: String,
    upward: bool,
}

impl View for PendingStep {
    type V = Step;

    closed spec fn view(&self) -> Step {
        Step { name: self.name@, upward: self.upward }
    }
}

/// The steps of a stack, the next one first.
spec fn steps_of(stack: Seq<PendingStep>) -> Seq<Step> {
    Seq::new(stack.len(), |i: int| stack[stack.len() - 1 - i]@)
}

impl ApkDexIndex {
    /// An index without classes.
    pub fn new() -> (r: Self)
        ensures
            r@ == Classes::empty(),
    {
        ApkDexIndex { classes: ClassTable::new() }
    }

    /// Indexes the classes of an application package: the files `classes.dex`,
    /// `classes2.dex` and so on, in the order of their names.
    #[verifier::loop_isolation(false)]
    pub fn from_apk(apk: &[u8]) -> (r: Result<Self, DexIndexError>)
        ensures
            match r {
                Ok(index) => index_of(apk@) == Ok::<Classes, DexIndexErrorView>(index@),
                Err(e) => index_of(apk@) == Err::<Classes, DexIndexErrorView>(e@),
            },
    {
        let entries = match parse_zip_entries(apk) {
            Ok(entries) => entries,
            Err(err) => return Err(DexIndexError::Zip(err.to_string())),
        };
        let dex_entries = sorted_dex_entries(entries);
        let ghost listed = entry_views(dex_entries@);
        let mut out = ApkDexIndex::new();
        let mut idx: usize = 0;
        while idx < dex_entries.len()
            invariant
                idx <= dex_entries@.len(),
                index_of(apk@) == indexed_from(apk@, listed, idx as int, out@),
            decreases dex_entries@.len() - idx,
        {
            assert(listed[idx as int] == dex_entries@[idx as int]@);
            let bytes = match extract_parsed_zip_entry(apk, &dex_entries[idx]) {
                Ok(bytes) => bytes,
                Err(err) => return Err(DexIndexError::Zip(err.to_string())),
            };
            add_dex(&mut out.classes, bytes.as_slice())?;
            idx += 1;
        }
        Ok(out)
    }

    /// An index has finitely many classes.
    pub proof fn is_finite(&self)
        ensures
            self@.dom().finite(),
    {
        self.classes.is_finite();
    }

    /// Whether a descriptor is that of a class of the package, a platform class,
    /// or an array of such types or of primitive types.
    pub fn contains_class(&self, descriptor: &str) -> (r: bool)
        ensures
            r == class_known(self@, descriptor@),
        decreases descriptor@.len(),
    {
        if self.classes.contains(descriptor) || platform_class_known(descriptor) {
            return true;
        }
        match array_component(descriptor) {
            Some(component) => is_primitive_descriptor(component) || self.contains_class(component),
            None => false,
        }
    }

    /// The first class, in the order of descriptors, below the platform's native
    /// activity.
    pub fn native_activity_class(&self) -> (r: Option<&str>)
        ensures
            match r {
                Some(d) => is_native_activity(self@, d@) && forall|other: Seq<char>| #[trigger]
                    is_native_activity(self@, other) ==> !before(other, d@),
                None => forall|other: Seq<char>| !#[trigger] is_native_activity(self@, other),
            },
    {
        let mut best: Option<usize> = None;
        let mut i: usize = 0;
        let ghost keys = self.classes.descriptors();
        proof {
            self.classes.is_finite();
        }
        while i < self.classes.len()
            invariant
                i <= keys.len(),
                keys == self.classes.descriptors(),
                self@.dom() == keys.to_set(),
                match best {
                    Some(b) => b < i && is_native_activity(self@, keys[b as int]) && forall|k: int|
                        0 <= k < i && is_native_activity(self@, #[trigger] keys[k]) ==> !before(
                            keys[k],
                            keys[b as int],
                        ),
                    None => forall|k: int|
                        0 <= k < i ==> !is_native_activity(self@, #[trigger] keys[k]),
                },
            decreases keys.len() - i,
        {
            let descriptor = self.classes.descriptor(i);
            assert(keys.contains(keys[i as int]));
            if self.is_assignable_to(descriptor, "Landroid/app/NativeActivity;") && !same_text(
                descriptor,
                "Landroid/app/NativeActivity;",
            ) {
                let ghost was = best;
                best = match best {
                    Some(b) => if comes_before(descriptor, self.classes.descriptor(b)) {
                        Some(i)
                    } else {
                        Some(b)
                    },
                    None => Some(i),
                };
                proof {
                    let d = keys[i as int];
                    before_is_transitive(d, d, d);
                    if let Some(b) = was {
                        let old_best = keys[b as int];
                        assert forall|k: int|
                            0 <= k < i && is_native_activity(
                                self@,
                                #[trigger] keys[k],
                            ) && before(d, old_best) implies !before(keys[k], d) by {
                            before_is_transitive(keys[k], d, old_best);
                        }
                    }
                }
            }
            i += 1;
        }
        proof {
            assert forall|other: Seq<char>| #[trigger] is_native_activity(
                self@,
                other,
            ) implies exists|k: int| 0 <= k < keys.len() && #[trigger] keys[k] == other by {
                assert(keys.contains(other));
                let k = keys.index_of(other);
                assert(keys[k] == other);
            }
        }
        match best {
            Some(b) => Some(self.classes.descriptor(b)),
            None => None,
        }
    }

    /// Whether a lookup finds a member.
    pub fn contains_member(
        &self,
        class_descriptor: &str,
        name: &str,
        descriptor: &str,
        kind: DexMemberKind,
        is_static: bool,
    ) -> (r: bool)
        ensures
            r == resolved(
                self@,
                class_descriptor@,
                (name@, descriptor@),
                wanted_of(kind, is_static),
            ) is Some,
    {
        self.resolve_member(class_descriptor, name, descriptor, kind, is_static).is_some()
    }

    /// Looks for a member, seen from a class.
    pub fn resolve_member(
        &self,
        class_descriptor: &str,
        name: &str,
        descriptor: &str,
        kind: DexMemberKind,
        is_static: bool,
    ) -> (r: Option<ResolvedDexMember>)
        ensures
            declaring(r) == resolved(
                self@,
                class_descriptor@,
                (name@, descriptor@),
                wanted_of(kind, is_static),
            ),
    {
        let key = member_key(name, descriptor);
        match (kind, is_static) {
            (DexMemberKind::Method, false) => self.resolve_instance_method(class_descriptor, &key),
            (DexMemberKind::Method, true) => self.resolve_upward(
                Wanted::StaticMethod,
                class_descriptor,
                &key,
            ),
            (DexMemberKind::Field, false) => self.resolve_upward(
                Wanted::InstanceField,
                class_descriptor,
                &key,
            ),
            (DexMemberKind::Field, true) => self.search_from(
                Wanted::StaticField,
                class_descriptor,
                true,
                &key,
            ),
        }
    }

    fn resolve_instance_method(&self, class_descriptor: &str, key: &MemberKey) -> (r: Option<
        ResolvedDexMember,
    >)
        ensures
            declaring(r) == resolved(self@, class_descriptor@, key@, Wanted::InstanceMethod),
    {
        if self.is_interface(class_descriptor) {
            return self.search_from(Wanted::InstanceMethod, class_descriptor, false, key);
        }
        match self.walk_up(Wanted::InstanceMethod, class_descriptor, key) {
            Walked::Found(class) => Some(ResolvedDexMember { declaring_class: class }),
            Walked::Refused => None,
            Walked::Looped => None,
            Walked::Exhausted => match self.classes.get(class_descriptor) {
                Some(class) => match class.methods.get(key) {
                    Some(method) => if method.is_direct && method.access_flags & ACC_STATIC == 0 {
                        Some(resolved_member(class_descriptor))
                    } else {
                        None
                    },
                    None => None,
                },
                None => None,
            },
        }
    }

    fn resolve_upward(&self, wanted: Wanted, class_descriptor: &str, key: &MemberKey) -> (r: Option<
        ResolvedDexMember,
    >)
        ensures
            declaring(r) == found(walk(self@, wanted, class_descriptor@, key@, Set::empty())),
    {
        match self.walk_up(wanted, class_descriptor, key) {
            Walked::Found(class) => Some(ResolvedDexMember { declaring_class: class }),
            _ => None,
        }
    }

    /// What a class says to a lookup.
    fn verdict_of(&self, wanted: Wanted, class: &str, key: &MemberKey) -> (r: Verdict)
        ensures
            r == verdict(self@, wanted, class@, key@),
    {
        match self.classes.get(class) {
            Some(definition) => match wanted {
                Wanted::InstanceMethod => match definition.methods.get(key) {
                    Some(method) => if method.is_direct {
                        Verdict::Open
                    } else if method.access_flags & ACC_STATIC == 0 {
                        Verdict::Found
                    } else {
                        Verdict::Refused
                    },
                    None => Verdict::Open,
                },
                Wanted::StaticMethod => match definition.methods.get(key) {
                    Some(method) => if !method.is_direct {
                        Verdict::Open
                    } else if method.access_flags & ACC_STATIC != 0 {
                        Verdict::Found
                    } else {
                        Verdict::Refused
                    },
                    None => Verdict::Open,
                },
                Wanted::InstanceField => match definition.fields.get(key) {
                    Some(flags) => if flags & ACC_STATIC == 0 {
                        Verdict::Found
                    } else {
                        Verdict::Open
                    },
                    None => Verdict::Open,
                },
                Wanted::StaticField => match definition.fields.get(key) {
                    Some(flags) => if flags & ACC_STATIC != 0 {
                        Verdict::Found
                    } else {
                        Verdict::Open
                    },
                    None => Verdict::Open,
                },
            },
            None => {
                let (kind, wants_static) = match wanted {
                    Wanted::InstanceMethod => (DexMemberKind::Method, false),
                    Wanted::StaticMethod => (DexMemberKind::Method, true),
                    Wanted::InstanceField => (DexMemberKind::Field, false),
                    Wanted::StaticField => (DexMemberKind::Field, true),
                };
                match platform_member_staticness(class, key, kind) {
                    Some(is_static) => if is_static == wants_static {
                        Verdict::Found
                    } else {
                        Verdict::Open
                    },
                    None => Verdict::Open,
                }
            },
        }
    }

    /// The class right above a class.
    fn superclass_of(&self, class: &str) -> (r: Option<String>)
        ensures
            optional_text(r) == next_up(self@, class@),
    {
        match self.classes.get(class) {
            Some(definition) => match &definition.superclass {
                Some(superclass) => Some(superclass.clone()),
                None => None,
            },
            None => match platform_superclass(class) {
                Some(superclass) => Some(String::from_str(superclass)),
                None => None,
            },
        }
    }

    /// Looks for a member in a class and those above it.
    fn walk_up(&self, wanted: Wanted, class_descriptor: &str, key: &MemberKey) -> (r: Walked)
        ensures
            r.outcome() == walk(self@, wanted, class_descriptor@, key@, Set::empty()),
    {
        let mut class = String::from_str(class_descriptor);
        let mut visited: Vec<String> = Vec::new();
        proof {
            self.is_finite();
            assert(names_in(visited@) =~= Set::empty());
        }
        loop
            invariant
                self@.dom().finite(),
                walk(self@, wanted, class_descriptor@, key@, Set::empty()) == walk(
                    self@,
                    wanted,
                    class@,
                    key@,
                    names_in(visited@),
                ),
            decreases unvisited(self@, names_in(visited@)),
        {
            if holds(&visited, class.as_str()) {
                return Walked::Looped;
            }
            proof {
                visiting_makes_progress(self@, names_in(visited@), class@);
            }
            match self.verdict_of(wanted, class.as_str(), key) {
                Verdict::Found => return Walked::Found(class),
                Verdict::Refused => return Walked::Refused,
                Verdict::Open => {},
            }
            match self.superclass_of(class.as_str()) {
                Some(next) => {
                    proof {
                        names_after_push(visited@, class);
                    }
                    visited.push(class);
                    class = next;
                },
                None => return Walked::Exhausted,
            }
        }
    }

    /// Puts the steps below a step on the stack, the first one on top.
    fn push_steps(&self, stack: &mut Vec<PendingStep>, step: &PendingStep)
        ensures
            steps_of(final(stack)@) == steps_from(self@, step@) + steps_of(old(stack)@),
    {
        if step.upward {
            match self.superclass_of(step.name.as_str()) {
                Some(next) => stack.push(PendingStep { name: next, upward: true }),
                None => {},
            }
        }
        let ghost up = match next_up(self@, step@.name) {
            Some(next) => if step@.upward {
                seq![Step { name: next, upward: true }]
            } else {
                Seq::empty()
            },
            None => Seq::empty(),
        };
        assert(steps_of(stack@) =~= up + steps_of(old(stack)@));
        match self.classes.get(step.name.as_str()) {
            Some(definition) => {
                let interfaces = &definition.interfaces;
                let ghost all = interface_steps(texts(interfaces@));
                let mut left: usize = interfaces.len();
                assert(steps_of(stack@) =~= all.skip(left as int) + (up + steps_of(old(stack)@)));
                while left > 0
                    invariant
                        left <= interfaces@.len(),
                        all == interface_steps(texts(interfaces@)),
                        steps_of(stack@) == all.skip(left as int) + (up + steps_of(old(stack)@)),
                    decreases left,
                {
                    left -= 1;
                    let ghost was = stack@;
                    stack.push(PendingStep { name: interfaces[left].clone(), upward: false });
                    assert(steps_of(stack@) =~= seq![all[left as int]] + steps_of(was));
                    assert(all.skip(left as int) =~= seq![all[left as int]] + all.skip(left + 1));
                    assert(steps_of(stack@) =~= all.skip(left as int) + (up + steps_of(
                        old(stack)@,
                    )));
                }
                assert(all.skip(0) =~= all);
                assert(steps_of(stack@) =~= (all + up) + steps_of(old(stack)@));
            },
            None => {},
        }
    }

    /// Looks for a member depth first.
    fn search_from(&self, wanted: Wanted, class_descriptor: &str, upward: bool, key: &MemberKey) -> (r:
        Option<ResolvedDexMember>)
        ensures
            declaring(r) == search(
                self@,
                wanted,
                seq![Step { name: class_descriptor@, upward }],
                key@,
                Set::empty(),
            ),
    {
        let ghost first = seq![Step { name: class_descriptor@, upward }];
        let mut visited: Vec<String> = Vec::new();
        let mut stack: Vec<PendingStep> = Vec::new();
        stack.push(PendingStep { name: String::from_str(class_descriptor), upward });
        proof {
            self.is_finite();
            assert(names_in(visited@) =~= Set::empty());
            assert(steps_of(stack@) =~= first);
        }
        loop
            invariant
                self@.dom().finite(),
                search(self@, wanted, first, key@, Set::empty()) == search(
                    self@,
                    wanted,
                    steps_of(stack@),
                    key@,
                    names_in(visited@),
                ),
                first == seq![Step { name: class_descriptor@, upward }],
            decreases unvisited(self@, names_in(visited@)), stack@.len(),
        {
            let ghost pending = steps_of(stack@);
            let step = match stack.pop() {
                Some(step) => step,
                None => return None,
            };
            assert(pending[0] == step@);
            assert(pending.drop_first() =~= steps_of(stack@));
            if !holds(&visited, step.name.as_str()) {
                proof {
                    visiting_makes_progress(self@, names_in(visited@), step@.name);
                    steps_need_a_universe(self@, step@);
                    names_after_push(visited@, step.name);
                }
                match self.verdict_of(wanted, step.name.as_str(), key) {
                    Verdict::Found => return Some(ResolvedDexMember { declaring_class: step.name }),
                    Verdict::Refused => {},
                    Verdict::Open => {
                        let ghost rest = steps_of(stack@);
                        self.push_steps(&mut stack, &step);
                        assert(steps_of(stack@).len() == steps_from(self@, step@).len()
                            + rest.len());
                    },
                }
                visited.push(step.name);
            }
        }
    }

    fn is_interface(&self, descriptor: &str) -> (r: bool)
        ensures
            r == is_interface(self@, descriptor@),
    {
        let declared = match self.classes.get(descriptor) {
            Some(class) => class.access_flags & ACC_INTERFACE != 0,
            None => false,
        };
        declared || platform_is_interface(descriptor)
    }

    /// Whether a class of the package declares a native method.
    pub fn is_declared_native_method(
        &self,
        class_descriptor: &str,
        name: &str,
        descriptor: &str,
    ) -> (r: bool)
        ensures
            r == declares_native(self@, class_descriptor@, (name@, descriptor@)),
    {
        let key = member_key(name, descriptor);
        match self.classes.get(class_descriptor) {
            Some(class) => match class.methods.get(&key) {
                Some(method) => method.access_flags & ACC_NATIVE != 0,
                None => false,
            },
            None => false,
        }
    }

    /// The classes and interfaces right above a class.
    fn parents_of(&self, class: &str) -> (r: Vec<String>)
        ensures
            texts(r@) == parents(self@, class@),
    {
        let mut out: Vec<String> = Vec::new();
        match self.superclass_of(class) {
            Some(superclass) => out.push(superclass),
            None => {},
        }
        let ghost up = match next_up(self@, class@) {
            Some(next) => seq![next],
            None => Seq::empty(),
        };
        assert(texts(out@) =~= up);
        match self.classes.get(class) {
            Some(definition) => {
                let interfaces = &definition.interfaces;
                let ghost all = texts(interfaces@);
                let mut i: usize = 0;
                assert(texts(out@) =~= up + all.take(0));
                while i < interfaces.len()
                    invariant
                        i <= interfaces@.len(),
                        all == texts(interfaces@),
                        texts(out@) == up + all.take(i as int),
                    decreases interfaces@.len() - i,
                {
                    let interface = interfaces[i].clone();
                    assert(texts(out@.push(interface)) =~= texts(out@).push(interface@));
                    assert(all.take(i + 1) =~= all.take(i as int).push(all[i as int]));
                    out.push(interface);
                    assert(texts(out@) =~= up + all.take(i + 1));
                    i += 1;
                }
                assert(all.take(i as int) =~= all);
            },
            None => {},
        }
        out
    }

    /// Whether a value of one type can be assigned to another.
    pub fn is_assignable_to(&self, actual: &str, expected: &str) -> (r: bool)
        ensures
            r == assignable(self@, actual@, expected@),
        decreases actual@.len(),
    {
        if same_text(actual, expected) {
            return true;
        }
        match array_component(actual) {
            Some(actual_component) => {
                if is_above_arrays(expected) {
                    return true;
                }
                match array_component(expected) {
                    Some(expected_component) => if is_primitive_descriptor(actual_component)
                        || is_primitive_descriptor(expected_component) {
                        same_text(actual_component, expected_component)
                    } else {
                        self.is_assignable_to(actual_component, expected_component)
                    },
                    None => false,
                }
            },
            None => self.climbs_to(actual, expected),
        }
    }

    /// Whether a class stands below another.
    fn climbs_to(&self, actual: &str, expected: &str) -> (r: bool)
        requires
            actual@ != expected@,
        ensures
            r == reaches(self@, actual@, expected@),
    {
        let mut pending: Vec<String> = Vec::new();
        let mut visited: Vec<String> = Vec::new();
        pending.push(String::from_str(actual));
        proof {
            self.is_finite();
            reaches_itself(self@, actual@);
            assert(texts(pending@)[0] == actual@);
            assert(names_in(visited@) =~= Set::empty());
        }
        loop
            invariant
                self@.dom().finite(),
                names_in(pending@).contains(actual@) || names_in(visited@).contains(actual@),
                forall|x: Seq<char>|
                    #![trigger names_in(pending@).contains(x)]
                    #![trigger names_in(visited@).contains(x)]
                    names_in(pending@).contains(x) || names_in(visited@).contains(x) ==> reaches(
                        self@,
                        actual@,
                        x,
                    ) && x != expected@,
                forall|x: Seq<char>, y: Seq<char>|
                    names_in(visited@).contains(x) && #[trigger] edge(self@, x, y) ==> names_in(
                        visited@,
                    ).contains(y) || names_in(pending@).contains(y),
            decreases unvisited(self@, names_in(visited@)), pending@.len(),
        {
            let ghost was = pending@;
            let class = match pending.pop() {
                Some(class) => class,
                None => {
                    proof {
                        assert(names_in(pending@) =~= Set::empty());
                        if reaches(self@, actual@, expected@) {
                            closed_sets_hold_what_is_reached(
                                self@,
                                names_in(visited@),
                                actual@,
                                expected@,
                            );
                        }
                    }
                    return false;
                },
            };
            proof {
                assert(was =~= pending@.push(class));
                names_after_push(pending@, class);
                assert(names_in(was).contains(class@));
            }
            if !holds(&visited, class.as_str()) {
                proof {
                    visiting_makes_progress(self@, names_in(visited@), class@);
                }
                let above = self.parents_of(class.as_str());
                let ghost rest = names_in(pending@);
                let ghost rest_len = pending@.len();
                let ghost seen = names_in(visited@);
                let ghost ups = texts(above@);
                let mut i: usize = 0;
                while i < above.len()
                    invariant
                        i <= above@.len(),
                        ups == texts(above@),
                        ups == parents(self@, class@),
                        reaches(self@, actual@, class@),
                        pending@.len() == rest_len + i,
                        forall|x: Seq<char>| #[trigger]
                            names_in(pending@).contains(x) <==> rest.contains(x) || ups.take(
                                i as int,
                            ).contains(x),
                        forall|k: int| 0 <= k < i ==> #[trigger] ups[k] != expected@,
                        forall|x: Seq<char>| #[trigger]
                            ups.take(i as int).contains(x) ==> reaches(self@, actual@, x),
                    decreases above@.len() - i,
                {
                    let parent = above[i].clone();
                    proof {
                        assert(ups[i as int] == parent@);
                        assert(ups.contains(parent@));
                        assert(edge(self@, class@, parent@));
                        reaches_one_more(self@, actual@, class@, parent@);
                        names_after_push(pending@, parent);
                        let now = ups.take(i + 1);
                        let then = ups.take(i as int);
                        assert(now =~= then.push(parent@));
                        assert forall|x: Seq<char>| now.contains(x) <==> then.contains(x) || x
                            == parent@ by {
                            if then.contains(x) {
                                let k = then.index_of(x);
                                assert(now[k] == x);
                            }
                            assert(now[i as int] == parent@);
                            if now.contains(x) && x != parent@ {
                                let k = now.index_of(x);
                                assert(then[k] == x);
                            }
                        }
                    }
                    if same_text(parent.as_str(), expected) {
                        return true;
                    }
                    pending.push(parent);
                    i += 1;
                }
                proof {
                    assert(ups.take(i as int) =~= ups);
                    names_after_push(visited@, class);
                    assert(ups.len() > 0 ==> universe(self@).contains(class@));
                    assert forall|x: Seq<char>| #[trigger]
                        names_in(pending@).contains(x) implies reaches(self@, actual@, x) && x
                        != expected@ by {
                        if rest.contains(x) {
                            assert(names_in(was).contains(x));
                        }
                        if ups.contains(x) {
                            let k = ups.index_of(x);
                            assert(ups[k] == x);
                        }
                    }
                }
                visited.push(class);
            } else {
                assert forall|x: Seq<char>| #[trigger]
                    names_in(pending@).contains(x) implies names_in(was).contains(x) by {}
            }
        }
    }

    /// Puts an empty class in, in place of one with its descriptor.
    pub fn insert_test_class(&mut self, descriptor: &str, superclass: Option<&str>)
        ensures
            final(self)@ == old(self)@.insert(
                descriptor@,
                ClassView::empty(0, text_view(superclass)),
            ),
    {
        let superclass = match superclass {
            Some(superclass) => Some(String::from_str(superclass)),
            None => None,
        };
        self.classes.insert(String::from_str(descriptor), DexClass::new(0, superclass));
    }

    /// Puts a method into a class. Static methods and constructors are direct.
    pub fn insert_test_method(
        &mut self,
        class_descriptor: &str,
        name: &str,
        descriptor: &str,
        is_static: bool,
        is_native: bool,
    )
        requires
            old(self)@.contains_key(class_descriptor@),
        ensures
            final(self)@ == old(self)@.insert(
                class_descriptor@,
                with_method(
                    old(self)@[class_descriptor@],
                    (name@, descriptor@),
                    DexMethod {
                        access_flags: method_flags(is_static, is_native),
                        is_direct: is_static || name@ == "<init>"@,
                    },
                ),
            ),
    {
        let mut access_flags: u32 = 0;
        if is_static {
            access_flags = access_flags | ACC_STATIC;
        }
        if is_native {
            access_flags = access_flags | ACC_NATIVE;
        }
        let is_direct = is_static || same_text(name, "<init>");
        self.classes.insert_method(
            class_descriptor,
            member_key(name, descriptor),
            DexMethod { access_flags, is_direct },
        );
    }

    /// Makes a method of a class direct.
    pub fn mark_test_method_direct(&mut self, class_descriptor: &str, name: &str, descriptor: &str)
        requires
            old(self)@.contains_key(class_descriptor@),
            old(self)@[class_descriptor@].methods.contains_key((name@, descriptor@)),
        ensures
            final(self)@ == old(self)@.insert(
                class_descriptor@,
                with_method(
                    old(self)@[class_descriptor@],
                    (name@, descriptor@),
                    DexMethod {
                        is_direct: true,
                        ..old(self)@[class_descriptor@].methods[(name@, descriptor@)]
                    },
                ),
            ),
    {
        let key = member_key(name, descriptor);
        let access_flags: u32 = match self.classes.get(class_descriptor) {
            Some(class) => match class.methods.get(&key) {
                Some(method) => method.access_flags,
                None => 0,
            },
            None => 0,
        };
        self.classes.insert_method(
            class_descriptor,
            key,
            DexMethod { access_flags, is_direct: true },
        );
    }

    /// Makes a class an interface.
    pub fn mark_test_class_as_interface(&mut self, descriptor: &str)
        requires
            old(self)@.contains_key(descriptor@),
        ensures
            final(self)@ == old(self)@.insert(
                descriptor@,
                ClassView {
                    access_flags: old(self)@[descriptor@].access_flags | ACC_INTERFACE,
                    ..old(self)@[descriptor@]
                },
            ),
    {
        self.classes.add_flags(descriptor, ACC_INTERFACE);
    }

    /// Adds an interface to a class.
    pub fn add_test_interface(&mut self, descriptor: &str, interface: &str)
        requires
            old(self)@.contains_key(descriptor@),
        ensures
            final(self)@ == old(self)@.insert(
                descriptor@,
                ClassView {
                    interfaces: old(self)@[descriptor@].interfaces.push(interface@),
                    ..old(self)@[descriptor@]
                },
            ),
    {
        self.classes.add_interface(descriptor, String::from_str(interface));
    }

    /// Puts a field into a class.
    pub fn insert_test_field(
        &mut self,
        class_descriptor: &str,
        name: &str,
        descriptor: &str,
        is_static: bool,
    )
        requires
            old(self)@.contains_key(class_descriptor@),
        ensures
            final(self)@ == old(self)@.insert(
                class_descriptor@,
                ClassView {
                    fields: old(self)@[class_descriptor@].fields.insert(
                        (name@, descriptor@),
                        if is_static {
                            ACC_STATIC
                        } else {
                            0
                        },
                    ),
                    ..old(self)@[class_descriptor@]
                },
            ),
    {
        let flags: u32 = if is_static {
            ACC_STATIC
        } else {
            0
        };
        self.classes.insert_field(class_descriptor, member_key(name, descriptor), flags);
    }
}

impl Default for ApkDexIndex {
    /// An index without classes.
    fn default() -> (r: Self)
        ensures
            r@ == Classes::empty(),
    {
        ApkDexIndex::new()
    }
}

/// The flags of a method.
pub open spec fn method_flags(is_static: bool, is_native: bool) -> u32 {
    let flags = if is_static {
        0u32 | ACC_STATIC
    } else {
        0u32
    };
    if is_native {
        flags | ACC_NATIVE
    } else {
        flags
    }
}

/// A class with a method put in.
pub open spec fn with_method(class: ClassView, key: MemberName, method: DexMethod) -> ClassView {
    ClassView { methods: class.methods.insert(key, method), ..class }
}

/// Whether a class of the package is below the platform's native activity.
pub open spec fn is_native_activity(classes: Classes, descriptor: Seq<char>) -> bool {
    classes.contains_key(descriptor) && descriptor != "Landroid/app/NativeActivity;"@
        && assignable(classes, descriptor, "Landroid/app/NativeActivity;"@)
}

/// Whether a class declares a native method.
pub open spec fn declares_native(classes: Classes, class: Seq<char>, key: MemberName) -> bool {
    classes.contains_key(class) && classes[class].methods.contains_key(key)
        && classes[class].methods[key].access_flags & ACC_NATIVE != 0
}

/// Whether an entry holds classes: `classes`, digits or nothing, `.dex`.
pub open spec fn holds_classes(name: Seq<char>) -> bool {
    &&& name.len() >= 11
    &&& stands_at(name, "classes"@, 0)
    &&& stands_at(name, ".dex"@, name.len() - 4)
    &&& forall|i: int| 7 <= i < name.len() - 4 ==> '0' <= #[trigger] name[i] <= '9'
}

/// The entries that hold classes.
pub open spec fn class_entries(entries: Seq<ZipEntryView>) -> Seq<ZipEntryView>
    decreases entries.len(),
{
    if entries.len() == 0 {
        Seq::empty()
    } else {
        let rest = class_entries(entries.drop_first());
        if holds_classes(entries[0].name) {
            seq![entries[0]] + rest
        } else {
            rest
        }
    }
}

/// The name that entries are ordered by.
pub open spec fn entry_key() -> spec_fn(ZipEntryView) -> Seq<char> {
    |e: ZipEntryView| e.name
}

/// `acc` and the classes of the entries from `idx` on.
pub open spec fn indexed_from(apk: Seq<u8>, entries: Seq<ZipEntryView>, idx: int, acc: Classes) -> core::result::Result<
    Classes,
    DexIndexErrorView,
>
    decreases entries.len() - idx,
{
    if idx >= entries.len() {
        Ok(acc)
    } else {
        match data_of(apk, entries[idx]) {
            Err(e) => Err(DexIndexErrorView::Zip(e.text())),
            Ok(bytes) => match with_dex(bytes, acc) {
                Err(e) => Err(e),
                Ok(more) => indexed_from(apk, entries, idx + 1, more),
            },
        }
    }
}

/// The classes of an application package.
pub open spec fn index_of(apk: Seq<u8>) -> core::result::Result<Classes, DexIndexErrorView> {
    match entries_of(apk) {
        Err(e) => Err(DexIndexErrorView::Zip(e.text())),
        Ok(entries) => indexed_from(
            apk,
            by_name(class_entries(entries), entry_key()),
            0,
            Classes::empty(),
        ),
    }
}

/// Whether an entry holds classes.
pub fn is_classes_dex(name: &str) -> (r: bool)
    ensures
        r == holds_classes(name@),
{
    proof {
        reveal_strlit("classes");
        reveal_strlit(".dex");
    }
    let chars = chars_of(name);
    let prefix = chars_of("classes");
    let suffix = chars_of(".dex");
    if chars.len() < 11 || !text_stands_at(chars.as_slice(), prefix.as_slice(), 0)
        || !text_stands_at(chars.as_slice(), suffix.as_slice(), chars.len() - 4) {
        return false;
    }
    let mut i: usize = 7;
    while i < chars.len() - 4
        invariant
            chars@ == name@,
            chars@.len() >= 11,
            7 <= i <= chars@.len() - 4,
            forall|k: int| 7 <= k < i ==> '0' <= #[trigger] name@[k] <= '9',
        decreases chars@.len() - i,
    {
        if !('0' <= chars[i] && chars[i] <= '9') {
            return false;
        }
        i += 1;
    }
    true
}

/// Finds the place of a name among ordered entries.
fn entry_place(entries: &Vec<ZipEntry>, name: &str) -> (r: usize)
    ensures
        r == place(entry_views(entries@).map_values(entry_key()), name@, 0),
        r <= entries@.len(),
{
    let ghost names = entry_views(entries@).map_values(entry_key());
    let mut i: usize = 0;
    while i < entries.len()
        invariant
            i <= entries@.len(),
            names == entry_views(entries@).map_values(entry_key()),
            place(names, name@, 0) == place(names, name@, i as int),
        decreases entries@.len() - i,
    {
        assert(names[i as int] == entries@[i as int].name@);
        if !comes_before(entries[i].name.as_str(), name) {
            return i;
        }
        i += 1;
    }
    i
}

/// The entries that hold classes, ordered by name.
fn sorted_dex_entries(entries: Vec<ZipEntry>) -> (r: Vec<ZipEntry>)
    ensures
        entry_views(r@) == by_name(class_entries(entry_views(entries@)), entry_key()),
{
    let ghost all = entry_views(entries@);
    let mut left = entries;
    let mut sorted: Vec<ZipEntry> = Vec::new();
    assert(entry_views(sorted@) =~= by_name(
        class_entries(all.skip(all.len() as int)),
        entry_key(),
    ));
    loop
        invariant
            all == entry_views(entries@),
            left@.len() <= all.len(),
            entry_views(left@) == all.take(left@.len() as int),
            entry_views(sorted@) == by_name(
                class_entries(all.skip(left@.len() as int)),
                entry_key(),
            ),
        decreases left@.len(),
    {
        let ghost before_pop = left@;
        match left.pop() {
            Some(entry) => {
                let ghost rest = entry_views(sorted@);
                proof {
                    let n = left@.len() as int;
                    let from = all.skip(n);
                    assert(entry_views(before_pop)[n] == entry@);
                    assert(from[0] == entry@);
                    assert(from.drop_first() =~= all.skip(n + 1));
                    assert(entry_views(left@) =~= all.take(n));
                    if holds_classes(entry@.name) {
                        assert(class_entries(from).drop_first() =~= class_entries(
                            all.skip(n + 1),
                        ));
                    }
                }
                if is_classes_dex(entry.name.as_str()) {
                    let at = entry_place(&sorted, entry.name.as_str());
                    assert(entry_views(sorted@.insert(at as int, entry)) =~= rest.insert(
                        at as int,
                        entry@,
                    ));
                    sorted.insert(at, entry);
                }
            },
            None => {
                assert(all.skip(0) =~= all);
                return sorted;
            },
        }
    }
}

fn resolved_member(declaring_class: &str) -> (r: ResolvedDexMember)
    ensures
        r.declaring_class@ == declaring_class@,
{
    ResolvedDexMember { declaring_class: String::from_str(declaring_class) }
}

fn member_key(name: &str, descriptor: &str) -> (r: MemberKey)
    ensures
        r@ == (name@, descriptor@),
{
    MemberKey { name: String::from_str(name), descriptor: String::from_str(descriptor) }
}

/// The element type of an array.
fn array_component(descriptor: &str) -> (r: Option<&str>)
    ensures
        match r {
            Some(component) => is_array(descriptor@) && component@ == descriptor@.drop_first(),
            None => !is_array(descriptor@),
        },
{
    let len = descriptor.unicode_len();
    if len > 0 && descriptor.get_char(0) == '[' {
        let component = descriptor.substring_char(1, len);
        assert(component@ =~= descriptor@.drop_first());
        Some(component)
    } else {
        None
    }
}

fn is_above_arrays(descriptor: &str) -> (r: bool)
    ensures
        r == above_arrays(descriptor@),
{
    same_text(descriptor, "Ljava/lang/Object;") || same_text(descriptor, "Ljava/lang/Cloneable;")
        || same_text(descriptor, "Ljava/io/Serializable;")
}

fn is_primitive_descriptor(descriptor: &str) -> (r: bool)
    ensures
        r == primitive(descriptor@),
{
    same_text(descriptor, "Z") || same_text(descriptor, "B") || same_text(descriptor, "C")
        || same_text(descriptor, "S") || same_text(descriptor, "I") || same_text(descriptor, "J")
        || same_text(descriptor, "F") || same_text(descriptor, "D")
}

} // verus!
