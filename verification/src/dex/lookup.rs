//! How members are looked up in a class and what stands above it.

use super::class::{Classes, ACC_INTERFACE, ACC_STATIC};
use super::platform::{above, below_something, below_something_is_finite, interface, staticness};
use super::platform::DexMemberKind;
use super::table::MemberName;
use vstd::prelude::*;

verus! {

/// What is looked for.
#[derive(Debug, Clone, Copy, PartialEq, Eq, Structural)]
pub enum Wanted {
    InstanceMethod,
    StaticMethod,
    InstanceField,
    StaticField,
}

/// What a class says to a lookup.
#[derive(Debug, Clone, Copy, PartialEq, Eq, Structural)]
pub enum Verdict {
    /// The member is here.
    Found,
    /// A member is here that ends the lookup without being the right one.
    Refused,
    /// The lookup goes on.
    Open,
}

/// Whether flags are those of a static member.
pub open spec fn is_static(flags: u32) -> bool {
    flags & ACC_STATIC != 0
}

/// What a class says to a lookup. Instance methods are looked for among the
/// methods that are not direct, static methods among those that are, and a
/// method with the right key ends the lookup either way.
pub open spec fn verdict(classes: Classes, wanted: Wanted, class: Seq<char>, key: MemberName) -> Verdict {
    if classes.contains_key(class) {
        let d = classes[class];
        match wanted {
            Wanted::InstanceMethod => if !d.methods.contains_key(key) || d.methods[key].is_direct {
                Verdict::Open
            } else if is_static(d.methods[key].access_flags) {
                Verdict::Refused
            } else {
                Verdict::Found
            },
            Wanted::StaticMethod => if !d.methods.contains_key(key) || !d.methods[key].is_direct {
                Verdict::Open
            } else if is_static(d.methods[key].access_flags) {
                Verdict::Found
            } else {
                Verdict::Refused
            },
            Wanted::InstanceField => if d.fields.contains_key(key) && !is_static(d.fields[key]) {
                Verdict::Found
            } else {
                Verdict::Open
            },
            Wanted::StaticField => if d.fields.contains_key(key) && is_static(d.fields[key]) {
                Verdict::Found
            } else {
                Verdict::Open
            },
        }
    } else {
        let known = match wanted {
            Wanted::InstanceMethod => staticness(class, key, DexMemberKind::Method) == Some(false),
            Wanted::StaticMethod => staticness(class, key, DexMemberKind::Method) == Some(true),
            Wanted::InstanceField => staticness(class, key, DexMemberKind::Field) == Some(false),
            Wanted::StaticField => staticness(class, key, DexMemberKind::Field) == Some(true),
        };
        if known {
            Verdict::Found
        } else {
            Verdict::Open
        }
    }
}

/// The class right above a class.
pub open spec fn next_up(classes: Classes, class: Seq<char>) -> Option<Seq<char>> {
    if classes.contains_key(class) {
        classes[class].superclass
    } else {
        above(class)
    }
}

/// The classes that can have something above them.
pub open spec fn universe(classes: Classes) -> Set<Seq<char>> {
    classes.dom().union(below_something())
}

/// How many of them have not been visited.
pub open spec fn unvisited(classes: Classes, visited: Set<Seq<char>>) -> nat {
    universe(classes).difference(visited).len()
}

/// Visiting a class never leaves more to visit, and leaves less where something
/// can be above the class.
pub proof fn visiting_makes_progress(classes: Classes, visited: Set<Seq<char>>, class: Seq<char>)
    requires
        classes.dom().finite(),
        !visited.contains(class),
    ensures
        unvisited(classes, visited.insert(class)) <= unvisited(classes, visited),
        universe(classes).contains(class) ==> unvisited(classes, visited.insert(class)) < unvisited(
            classes,
            visited,
        ),
{
    below_something_is_finite();
    let left = universe(classes).difference(visited);
    assert(universe(classes).difference(visited.insert(class)) =~= left.remove(class));
}

/// How a walk up ends.
pub enum Outcome {
    /// The member is in this class.
    Found(Seq<char>),
    /// A class ended the lookup.
    Refused,
    /// A class came up again.
    Looped,
    /// There is nothing further up.
    Exhausted,
}

/// Looks for a member in a class and those above it, one after the other.
pub open spec fn walk(
    classes: Classes,
    wanted: Wanted,
    class: Seq<char>,
    key: MemberName,
    visited: Set<Seq<char>>,
) -> Outcome
    decreases unvisited(classes, visited),
    when classes.dom().finite()
    via walk_decreases
{
    if visited.contains(class) {
        Outcome::Looped
    } else {
        match verdict(classes, wanted, class, key) {
            Verdict::Found => Outcome::Found(class),
            Verdict::Refused => Outcome::Refused,
            Verdict::Open => match next_up(classes, class) {
                Some(next) => walk(classes, wanted, next, key, visited.insert(class)),
                None => Outcome::Exhausted,
            },
        }
    }
}

#[via_fn]
proof fn walk_decreases(
    classes: Classes,
    wanted: Wanted,
    class: Seq<char>,
    key: MemberName,
    visited: Set<Seq<char>>,
) {
    if !visited.contains(class) {
        visiting_makes_progress(classes, visited, class);
    }
}

/// A class or interface that is still to be looked at.
pub struct Step {
    pub name: Seq<char>,
    /// Whether the class above is looked at too, behind the interfaces.
    pub upward: bool,
}

/// The interfaces of a class as steps.
pub open spec fn interface_steps(interfaces: Seq<Seq<char>>) -> Seq<Step> {
    Seq::new(interfaces.len(), |i: int| Step { name: interfaces[i], upward: false })
}

/// What is looked at below a step that left the lookup open.
pub open spec fn steps_from(classes: Classes, step: Step) -> Seq<Step> {
    let up = match next_up(classes, step.name) {
        Some(next) => if step.upward {
            seq![Step { name: next, upward: true }]
        } else {
            Seq::empty()
        },
        None => Seq::empty(),
    };
    if classes.contains_key(step.name) {
        interface_steps(classes[step.name].interfaces) + up
    } else {
        up
    }
}

/// Looks for a member in steps, depth first, visiting no class twice.
pub open spec fn search(
    classes: Classes,
    wanted: Wanted,
    pending: Seq<Step>,
    key: MemberName,
    visited: Set<Seq<char>>,
) -> Option<Seq<char>>
    decreases unvisited(classes, visited), pending.len(),
    when classes.dom().finite()
    via search_decreases
{
    if pending.len() == 0 {
        None
    } else {
        let step = pending[0];
        let rest = pending.drop_first();
        if visited.contains(step.name) {
            search(classes, wanted, rest, key, visited)
        } else {
            match verdict(classes, wanted, step.name, key) {
                Verdict::Found => Some(step.name),
                Verdict::Refused => search(classes, wanted, rest, key, visited.insert(step.name)),
                Verdict::Open => search(
                    classes,
                    wanted,
                    steps_from(classes, step) + rest,
                    key,
                    visited.insert(step.name),
                ),
            }
        }
    }
}

#[via_fn]
proof fn search_decreases(
    classes: Classes,
    wanted: Wanted,
    pending: Seq<Step>,
    key: MemberName,
    visited: Set<Seq<char>>,
) {
    if pending.len() > 0 && !visited.contains(pending[0].name) {
        visiting_makes_progress(classes, visited, pending[0].name);
        steps_need_a_universe(classes, pending[0]);
    }
}

/// Only classes that can have something above them lead on.
pub proof fn steps_need_a_universe(classes: Classes, step: Step)
    ensures
        steps_from(classes, step).len() > 0 ==> universe(classes).contains(step.name),
{
}

/// Whether a descriptor names an interface.
pub open spec fn is_interface(classes: Classes, name: Seq<char>) -> bool {
    (classes.contains_key(name) && classes[name].access_flags & ACC_INTERFACE != 0) || interface(
        name,
    )
}

/// Whether a class has a direct method that is not static, such as a constructor.
pub open spec fn has_direct(classes: Classes, class: Seq<char>, key: MemberName) -> bool {
    classes.contains_key(class) && classes[class].methods.contains_key(key)
        && classes[class].methods[key].is_direct && !is_static(
        classes[class].methods[key].access_flags,
    )
}

/// What kind of member is looked for.
pub open spec fn wanted_of(kind: DexMemberKind, is_static: bool) -> Wanted {
    match (kind, is_static) {
        (DexMemberKind::Method, false) => Wanted::InstanceMethod,
        (DexMemberKind::Method, true) => Wanted::StaticMethod,
        (DexMemberKind::Field, false) => Wanted::InstanceField,
        (DexMemberKind::Field, true) => Wanted::StaticField,
    }
}

/// The class that a walk found the member in.
pub open spec fn found(outcome: Outcome) -> Option<Seq<char>> {
    match outcome {
        Outcome::Found(class) => Some(class),
        _ => None,
    }
}

/// The class that declares a member, seen from a class. Methods of interfaces
/// are looked for in the interfaces above, static fields in the interfaces and
/// the classes above, all others in the classes above. Instance methods that
/// are not found so may be direct methods of the class itself.
pub open spec fn resolved(
    classes: Classes,
    class: Seq<char>,
    key: MemberName,
    wanted: Wanted,
) -> Option<Seq<char>> {
    match wanted {
        Wanted::InstanceMethod => if is_interface(classes, class) {
            search(classes, wanted, seq![Step { name: class, upward: false }], key, Set::empty())
        } else {
            match walk(classes, wanted, class, key, Set::empty()) {
                Outcome::Exhausted => if has_direct(classes, class, key) {
                    Some(class)
                } else {
                    None
                },
                outcome => found(outcome),
            }
        },
        Wanted::StaticField => search(
            classes,
            wanted,
            seq![Step { name: class, upward: true }],
            key,
            Set::empty(),
        ),
        _ => found(walk(classes, wanted, class, key, Set::empty())),
    }
}

/// Whether a class declares a member of the kind that is looked for.
pub open spec fn declares(classes: Classes, class: Seq<char>, key: MemberName, wanted: Wanted) -> bool {
    verdict(classes, wanted, class, key) == Verdict::Found || (wanted == Wanted::InstanceMethod
        && has_direct(classes, class, key))
}

proof fn walk_finds_declarations(
    classes: Classes,
    wanted: Wanted,
    class: Seq<char>,
    key: MemberName,
    visited: Set<Seq<char>>,
)
    requires
        classes.dom().finite(),
    ensures
        match walk(classes, wanted, class, key, visited) {
            Outcome::Found(c) => verdict(classes, wanted, c, key) == Verdict::Found && !visited.contains(c),
            _ => true,
        },
    decreases unvisited(classes, visited),
{
    if !visited.contains(class) && verdict(classes, wanted, class, key) == Verdict::Open {
        if let Some(next) = next_up(classes, class) {
            visiting_makes_progress(classes, visited, class);
            walk_finds_declarations(classes, wanted, next, key, visited.insert(class));
        }
    }
}

proof fn search_finds_declarations(
    classes: Classes,
    wanted: Wanted,
    pending: Seq<Step>,
    key: MemberName,
    visited: Set<Seq<char>>,
)
    requires
        classes.dom().finite(),
    ensures
        match search(classes, wanted, pending, key, visited) {
            Some(c) => verdict(classes, wanted, c, key) == Verdict::Found && !visited.contains(c),
            None => true,
        },
    decreases unvisited(classes, visited), pending.len(),
{
    if pending.len() > 0 {
        let step = pending[0];
        let rest = pending.drop_first();
        if visited.contains(step.name) {
            search_finds_declarations(classes, wanted, rest, key, visited);
        } else {
            visiting_makes_progress(classes, visited, step.name);
            steps_need_a_universe(classes, step);
            match verdict(classes, wanted, step.name, key) {
                Verdict::Found => {},
                Verdict::Refused => search_finds_declarations(
                    classes,
                    wanted,
                    rest,
                    key,
                    visited.insert(step.name),
                ),
                Verdict::Open => search_finds_declarations(
                    classes,
                    wanted,
                    steps_from(classes, step) + rest,
                    key,
                    visited.insert(step.name),
                ),
            }
        }
    }
}

/// A lookup only ever gives a class that declares the member, with the kind and
/// the staticness that were asked for.
pub proof fn resolved_members_are_declared(
    classes: Classes,
    class: Seq<char>,
    key: MemberName,
    wanted: Wanted,
)
    requires
        classes.dom().finite(),
    ensures
        match resolved(classes, class, key, wanted) {
            Some(c) => declares(classes, c, key, wanted),
            None => true,
        },
{
    walk_finds_declarations(classes, wanted, class, key, Set::empty());
    search_finds_declarations(
        classes,
        wanted,
        seq![Step { name: class, upward: false }],
        key,
        Set::empty(),
    );
    search_finds_declarations(
        classes,
        wanted,
        seq![Step { name: class, upward: true }],
        key,
        Set::empty(),
    );
}

/// A class that declares the member itself is the answer, whatever stands above
/// it. For instance methods this is said of methods that are not direct.
pub proof fn own_members_come_first(
    classes: Classes,
    class: Seq<char>,
    key: MemberName,
    wanted: Wanted,
)
    requires
        classes.dom().finite(),
        verdict(classes, wanted, class, key) == Verdict::Found,
    ensures
        resolved(classes, class, key, wanted) == Some(class),
{
}

/// The classes and interfaces right above a class.
pub open spec fn parents(classes: Classes, class: Seq<char>) -> Seq<Seq<char>> {
    let up = match next_up(classes, class) {
        Some(next) => seq![next],
        None => Seq::empty(),
    };
    if classes.contains_key(class) {
        up + classes[class].interfaces
    } else {
        up
    }
}

/// Whether `b` stands right above `a`.
pub open spec fn edge(classes: Classes, a: Seq<char>, b: Seq<char>) -> bool {
    parents(classes, a).contains(b)
}

/// Whether a list of names goes up step by step.
pub open spec fn is_path(classes: Classes, path: Seq<Seq<char>>) -> bool {
    path.len() > 0 && forall|i: int|
        0 <= i < path.len() - 1 ==> edge(classes, #[trigger] path[i], path[i + 1])
}

/// Whether `b` is `a` or stands somewhere above it.
pub open spec fn reaches(classes: Classes, a: Seq<char>, b: Seq<char>) -> bool {
    exists|path: Seq<Seq<char>>| #[trigger]
        is_path(classes, path) && path[0] == a && path.last() == b
}

/// A name reaches itself.
pub proof fn reaches_itself(classes: Classes, a: Seq<char>)
    ensures
        reaches(classes, a, a),
{
    let path = seq![a];
    assert(is_path(classes, path));
}

/// What reaches a name reaches what stands right above it.
pub proof fn reaches_one_more(classes: Classes, a: Seq<char>, b: Seq<char>, c: Seq<char>)
    requires
        reaches(classes, a, b),
        edge(classes, b, c),
    ensures
        reaches(classes, a, c),
{
    let path = choose|path: Seq<Seq<char>>| #[trigger]
        is_path(classes, path) && path[0] == a && path.last() == b;
    let longer = path.push(c);
    assert forall|i: int| 0 <= i < longer.len() - 1 implies edge(
        classes,
        #[trigger] longer[i],
        longer[i + 1],
    ) by {
        if i < path.len() - 1 {
            assert(edge(classes, path[i], path[i + 1]));
        } else {
            assert(longer[i] == b && longer[i + 1] == c);
        }
    }
    assert(is_path(classes, longer));
    assert(longer[0] == a && longer.last() == c);
}

/// What reaches a name reaches what the name reaches.
pub proof fn reaches_is_transitive(classes: Classes, a: Seq<char>, b: Seq<char>, c: Seq<char>)
    requires
        reaches(classes, a, b),
        reaches(classes, b, c),
    ensures
        reaches(classes, a, c),
{
    let path = choose|path: Seq<Seq<char>>| #[trigger]
        is_path(classes, path) && path[0] == b && path.last() == c;
    follow(classes, a, path, path.len() - 1);
}

proof fn follow(classes: Classes, a: Seq<char>, path: Seq<Seq<char>>, n: int)
    requires
        is_path(classes, path),
        0 <= n < path.len(),
        reaches(classes, a, path[0]),
    ensures
        reaches(classes, a, path[n]),
    decreases n,
{
    if n > 0 {
        follow(classes, a, path, n - 1);
        assert(edge(classes, path[n - 1], path[n - 1 + 1]));
        reaches_one_more(classes, a, path[n - 1], path[n]);
    }
}

/// A set that holds a name and what stands right above each of its members
/// holds everything that the name reaches.
pub proof fn closed_sets_hold_what_is_reached(
    classes: Classes,
    set: Set<Seq<char>>,
    a: Seq<char>,
    b: Seq<char>,
)
    requires
        set.contains(a),
        forall|x: Seq<char>, y: Seq<char>|
            set.contains(x) && #[trigger] edge(classes, x, y) ==> set.contains(y),
        reaches(classes, a, b),
    ensures
        set.contains(b),
{
    let path = choose|path: Seq<Seq<char>>| #[trigger]
        is_path(classes, path) && path[0] == a && path.last() == b;
    stay_inside(classes, set, path, path.len() - 1);
}

proof fn stay_inside(classes: Classes, set: Set<Seq<char>>, path: Seq<Seq<char>>, n: int)
    requires
        is_path(classes, path),
        0 <= n < path.len(),
        set.contains(path[0]),
        forall|x: Seq<char>, y: Seq<char>|
            set.contains(x) && #[trigger] edge(classes, x, y) ==> set.contains(y),
    ensures
        set.contains(path[n]),
    decreases n,
{
    if n > 0 {
        stay_inside(classes, set, path, n - 1);
        assert(edge(classes, path[n - 1], path[n - 1 + 1]));
    }
}

/// Whether a descriptor is that of a primitive type.
pub open spec fn primitive(n: Seq<char>) -> bool {
    ||| n == "Z"@
    ||| n == "B"@
    ||| n == "C"@
    ||| n == "S"@
    ||| n == "I"@
    ||| n == "J"@
    ||| n == "F"@
    ||| n == "D"@
}

/// Whether a descriptor is that of an array.
pub open spec fn is_array(n: Seq<char>) -> bool {
    n.len() > 0 && n[0] == '['
}

/// The types that every array can be assigned to.
pub open spec fn above_arrays(n: Seq<char>) -> bool {
    ||| n == "Ljava/lang/Object;"@
    ||| n == "Ljava/lang/Cloneable;"@
    ||| n == "Ljava/io/Serializable;"@
}

/// Whether a value of one type can be assigned to another.
pub open spec fn assignable(classes: Classes, actual: Seq<char>, expected: Seq<char>) -> bool
    decreases actual.len(),
{
    if actual == expected {
        true
    } else if is_array(actual) {
        if above_arrays(expected) {
            true
        } else if !is_array(expected) {
            false
        } else {
            let a = actual.drop_first();
            let e = expected.drop_first();
            if primitive(a) || primitive(e) {
                a == e
            } else {
                assignable(classes, a, e)
            }
        }
    } else {
        reaches(classes, actual, expected)
    }
}

/// Everything can be assigned to its own type, and between classes assignment
/// goes on: what can be assigned to a class can be assigned to whatever that
/// class can be assigned to.
pub proof fn assignment_is_a_preorder(
    classes: Classes,
    a: Seq<char>,
    b: Seq<char>,
    c: Seq<char>,
)
    requires
        !is_array(a),
        !is_array(b),
    ensures
        assignable(classes, a, a),
        assignable(classes, a, b) && assignable(classes, b, c) ==> assignable(classes, a, c),
{
    if assignable(classes, a, b) && assignable(classes, b, c) && a != b && b != c {
        reaches_is_transitive(classes, a, b, c);
    }
}

/// Arrays of classes can be assigned as their elements can.
pub proof fn arrays_are_assigned_by_element(classes: Classes, a: Seq<char>, e: Seq<char>)
    requires
        !primitive(a),
        !primitive(e),
    ensures
        assignable(classes, seq!['['] + a, seq!['['] + e) == (a == e || assignable(classes, a, e)),
{
    reveal_strlit("Ljava/lang/Object;");
    reveal_strlit("Ljava/lang/Cloneable;");
    reveal_strlit("Ljava/io/Serializable;");
    assert((seq!['['] + e)[0] == '[');
    assert((seq!['['] + a).drop_first() =~= a);
    assert((seq!['['] + e).drop_first() =~= e);
}

/// Whether a class, a platform class or an array of such a type is known.
pub open spec fn class_known(classes: Classes, n: Seq<char>) -> bool
    decreases n.len(),
{
    ||| classes.contains_key(n)
    ||| super::platform::known(n)
    ||| is_array(n) && (primitive(n.drop_first()) || class_known(classes, n.drop_first()))
}

/// The class `n` steps above a class.
pub open spec fn above_by(classes: Classes, class: Seq<char>, n: nat) -> Option<Seq<char>>
    decreases n,
{
    if n == 0 {
        Some(class)
    } else {
        match next_up(classes, class) {
            Some(next) => above_by(classes, next, (n - 1) as nat),
            None => None,
        }
    }
}

/// A walk up ends at the first class that does not leave the lookup open: it finds the
/// member there, or is refused there.
pub proof fn walks_stop_at_the_first(
    classes: Classes,
    wanted: Wanted,
    class: Seq<char>,
    key: MemberName,
    visited: Set<Seq<char>>,
) -> (n: nat)
    requires
        classes.dom().finite(),
    ensures
        forall|k: nat|
            k < n ==> above_by(classes, class, k) is Some && verdict(
                classes,
                wanted,
                (#[trigger] above_by(classes, class, k))->0,
                key,
            ) == Verdict::Open,
        match walk(classes, wanted, class, key, visited) {
            Outcome::Found(c) => above_by(classes, class, n) == Some(c) && verdict(
                classes,
                wanted,
                c,
                key,
            ) == Verdict::Found,
            Outcome::Refused => above_by(classes, class, n) is Some && verdict(
                classes,
                wanted,
                above_by(classes, class, n)->0,
                key,
            ) == Verdict::Refused,
            Outcome::Exhausted => above_by(classes, class, n) is None,
            Outcome::Looped => above_by(classes, class, n) is Some,
        },
    decreases unvisited(classes, visited),
{
    reveal_with_fuel(above_by, 2);
    if visited.contains(class) || verdict(classes, wanted, class, key) != Verdict::Open {
        0
    } else {
        match next_up(classes, class) {
            Some(next) => {
                visiting_makes_progress(classes, visited, class);
                let n = walks_stop_at_the_first(classes, wanted, next, key, visited.insert(class));
                assert forall|k: nat| k < n + 1 implies above_by(classes, class, k) is Some && verdict(
                    classes,
                    wanted,
                    (#[trigger] above_by(classes, class, k))->0,
                    key,
                ) == Verdict::Open by {
                    if k > 0 {
                        assert(above_by(classes, class, k) == above_by(classes, next, (k - 1) as nat));
                    }
                }
                n + 1
            },
            None => 1,
        }
    }
}

/// What a class of the files says, by the flags: static members have flag eight, methods
/// are told apart by whether they are direct, and a method of the other kind ends the
/// lookup.
pub proof fn verdicts_by_flags(classes: Classes, class: Seq<char>, key: MemberName)
    requires
        classes.contains_key(class),
    ensures
        ({
            let d = classes[class];
            let shared = |flags: u32| flags / 8 % 2 == 1;
            let field = d.fields.contains_key(key);
            let method = d.methods.contains_key(key);
            &&& verdict(classes, Wanted::InstanceField, class, key) == if field && !shared(d.fields[key]) {
                Verdict::Found
            } else {
                Verdict::Open
            }
            &&& verdict(classes, Wanted::StaticField, class, key) == if field && shared(d.fields[key]) {
                Verdict::Found
            } else {
                Verdict::Open
            }
            &&& verdict(classes, Wanted::InstanceMethod, class, key) == if method
                && !d.methods[key].is_direct {
                if shared(d.methods[key].access_flags) {
                    Verdict::Refused
                } else {
                    Verdict::Found
                }
            } else {
                Verdict::Open
            }
            &&& verdict(classes, Wanted::StaticMethod, class, key) == if method
                && d.methods[key].is_direct {
                if shared(d.methods[key].access_flags) {
                    Verdict::Found
                } else {
                    Verdict::Refused
                }
            } else {
                Verdict::Open
            }
        }),
{
    let d = classes[class];
    static_flag(d.fields[key]);
    static_flag(d.methods[key].access_flags);
}

proof fn static_flag(flags: u32)
    ensures
        (flags & 8 != 0) == (flags / 8 % 2 == 1),
{
    crate::armv6::word_parts::third_bit(flags);
}

} // verus!
