//! What the tables of a DEX file hold, entry by entry.

use crate::bytes::{fields_are_numbers, pair_at, quad_at, zero_from, zero_from_is_first};
use crate::strings::lossy_text;
use super::class::{ClassView, Classes};
use super::file::{
    class_def_at, entry, parameters_from, proto_at, string_at, strings_from, strings_of,
    tables_of, types_from, types_of, uleb, ClassDef, DexIndexErrorView, Tables,
};
use vstd::prelude::*;

verus! {

/// A string is the text between its length, which stands where its entry says, and the
/// next zero byte.
pub proof fn string_entries(b: Seq<u8>, at: int, text: Seq<char>)
    requires
        string_at(b, at) == Ok::<Seq<char>, DexIndexErrorView>(text),
        0 <= at,
    ensures
        exists|start: int, end: int|
            uleb(b, quad_at(b, at)) is Ok && start == uleb(b, quad_at(b, at))->Ok_0.1 && start <= end
                < b.len() && b[end] == 0 && (forall|i: int| start <= i < end ==> #[trigger] b[i] != 0)
                && text == lossy_text(#[trigger] b.subrange(start, end)),
{
    fields_are_numbers(b, at);
    let (_, start) = uleb(b, quad_at(b, at))->Ok_0;
    let end = zero_from(b, start);
    super::file_laws::variable_length_numbers(b, quad_at(b, at));
    zero_from_is_first(b, start);
    assert(text == lossy_text(b.subrange(start, end)));
}

proof fn all_strings(b: Seq<u8>, base: u32, count: u32, idx: int, acc: Seq<Seq<char>>, out: Seq<Seq<char>>)
    requires
        0 <= idx <= count,
        strings_from(b, base, count, idx, acc) == Ok::<Seq<Seq<char>>, DexIndexErrorView>(out),
    ensures
        out.len() == acc.len() + (count - idx),
        forall|i: int| 0 <= i < acc.len() ==> #[trigger] out[i] == acc[i],
        forall|i: int|
            acc.len() <= i < out.len() ==> string_at(b, base + 4 * (i - acc.len() + idx)) == Ok::<
                Seq<char>,
                DexIndexErrorView,
            >(#[trigger] out[i]),
    decreases count - idx,
{
    if idx < count {
        let s = string_at(b, base + 4 * idx)->Ok_0;
        all_strings(b, base, count, idx + 1, acc.push(s), out);
        assert(out[acc.len() as int] == acc.push(s)[acc.len() as int]);
        assert forall|i: int| 0 <= i < acc.len() implies #[trigger] out[i] == acc[i] by {
            assert(out[i] == acc.push(s)[i]);
        }
    }
}

/// The strings of a file: as many as the header says, string `i` being the one whose
/// offset is entry `i` of the table.
pub proof fn strings_by_index(b: Seq<u8>, out: Seq<Seq<char>>)
    requires
        strings_of(b) == Ok::<Seq<Seq<char>>, DexIndexErrorView>(out),
    ensures
        out.len() == quad_at(b, 0x38),
        forall|i: int|
            0 <= i < out.len() ==> string_at(b, quad_at(b, 0x3c) + 4 * i) == Ok::<
                Seq<char>,
                DexIndexErrorView,
            >(#[trigger] out[i]),
{
    fields_are_numbers(b, 0x38);
    fields_are_numbers(b, 0x3c);
    all_strings(
        b,
        quad_at(b, 0x3c) as u32,
        quad_at(b, 0x38) as u32,
        0,
        Seq::empty(),
        out,
    );
}

/// Whether a text is the string whose number stands at `at`.
pub open spec fn names_string(b: Seq<u8>, strings: Seq<Seq<char>>, at: int, text: Seq<char>) -> bool {
    0 <= quad_at(b, at) < strings.len() && text == strings[quad_at(b, at)]
}

proof fn all_types(
    b: Seq<u8>,
    strings: Seq<Seq<char>>,
    base: u32,
    count: u32,
    idx: int,
    acc: Seq<Seq<char>>,
    out: Seq<Seq<char>>,
)
    requires
        0 <= idx <= count,
        types_from(b, strings, base, count, idx, acc) == Ok::<Seq<Seq<char>>, DexIndexErrorView>(out),
    ensures
        out.len() == acc.len() + (count - idx),
        forall|i: int| 0 <= i < acc.len() ==> #[trigger] out[i] == acc[i],
        forall|i: int|
            acc.len() <= i < out.len() ==> names_string(
                b,
                strings,
                base + 4 * (i - acc.len() + idx),
                #[trigger] out[i],
            ),
    decreases count - idx,
{
    if idx < count {
        fields_are_numbers(b, base + 4 * idx);
        let s = strings[quad_at(b, base + 4 * idx)];
        assert(names_string(b, strings, base + 4 * idx, s));
        all_types(b, strings, base, count, idx + 1, acc.push(s), out);
        assert forall|i: int| acc.len() <= i < out.len() implies names_string(
            b,
            strings,
            base + 4 * (i - acc.len() + idx),
            #[trigger] out[i],
        ) by {
            if i > acc.len() {
                let p = acc.push(s);
                assert(names_string(b, strings, base + 4 * (i - p.len() + (idx + 1)), out[i]));
            } else {
                assert(out[i] == acc.push(s)[i]);
            }
        }
        assert(out[acc.len() as int] == acc.push(s)[acc.len() as int]);
        assert forall|i: int| 0 <= i < acc.len() implies #[trigger] out[i] == acc[i] by {
            assert(out[i] == acc.push(s)[i]);
        }
    }
}

/// The types of a file: type `i` is the string whose number is entry `i` of the table.
pub proof fn types_by_index(b: Seq<u8>, strings: Seq<Seq<char>>, out: Seq<Seq<char>>)
    requires
        types_of(b, strings) == Ok::<Seq<Seq<char>>, DexIndexErrorView>(out),
    ensures
        out.len() == quad_at(b, 0x40),
        forall|i: int|
            0 <= i < out.len() ==> names_string(
                b,
                strings,
                quad_at(b, 0x44) + 4 * i,
                #[trigger] out[i],
            ),
{
    fields_are_numbers(b, 0x40);
    fields_are_numbers(b, 0x44);
    all_types(
        b,
        strings,
        quad_at(b, 0x44) as u32,
        quad_at(b, 0x40) as u32,
        0,
        Seq::empty(),
        out,
    );
}

/// The texts of a list of types one after another.
pub open spec fn type_texts(b: Seq<u8>, types: Seq<Seq<char>>, base: int, from: int, count: int) -> Seq<char>
    decreases count - from,
{
    if from >= count {
        Seq::empty()
    } else {
        types[pair_at(b, base + 2 * from)] + type_texts(b, types, base, from + 1, count)
    }
}

proof fn parameter_texts(
    b: Seq<u8>,
    types: Seq<Seq<char>>,
    base: int,
    count: u32,
    idx: int,
    acc: Seq<char>,
    out: Seq<char>,
)
    requires
        0 <= idx <= count,
        0 <= base,
        parameters_from(b, types, base, count, idx, acc) == Ok::<Seq<char>, DexIndexErrorView>(out),
    ensures
        out == acc + type_texts(b, types, base, idx, count as int),
    decreases count - idx,
{
    if idx < count {
        fields_are_numbers(b, base + 2 * idx);
        assert(idx * 2 == 2 * idx);
        let s = types[pair_at(b, base + 2 * idx)];
        parameter_texts(b, types, base, count, idx + 1, acc + s, out);
        assert((acc + s) + type_texts(b, types, base, idx + 1, count as int) =~= acc + type_texts(
            b,
            types,
            base,
            idx,
            count as int,
        ));
    } else {
        assert(acc + Seq::<char>::empty() =~= acc);
    }
}

/// A method descriptor is the types of the parameters in brackets and the type of the
/// result, by the numbers in the prototype and its list of parameters.
pub proof fn prototype_texts(b: Seq<u8>, types: Seq<Seq<char>>, at: int, text: Seq<char>)
    requires
        0 <= at,
        proto_at(b, types, at) == Ok::<Seq<char>, DexIndexErrorView>(text),
    ensures
        ({
            let list = quad_at(b, at + 8);
            let parameters = if list == 0 {
                Seq::empty()
            } else {
                type_texts(b, types, list + 4, 0, quad_at(b, list))
            };
            let k = quad_at(b, at + 4);
            &&& 0 <= k < types.len()
            &&& text == seq!['('] + parameters + seq![')'] + types[k]
        }),
{
    fields_are_numbers(b, at + 8);
    fields_are_numbers(b, at + 4);
    let list = quad_at(b, at + 8);
    fields_are_numbers(b, list);
    reveal_strlit("(");
    reveal_strlit(")");
    assert("("@ =~= seq!['(']);
    assert(")"@ =~= seq![')']);
    if list != 0 {
        let count = quad_at(b, list) as u32;
        let head = parameters_from(b, types, list + 4, count, 0, "("@)->Ok_0;
        parameter_texts(b, types, list + 4, count, 0, "("@, head);
    } else {
        assert(seq!['('] + Seq::<char>::empty() =~= seq!['(']);
    }
}

/// The field and method identifiers of a file: two numbers of two bytes and one of four
/// for each.
pub proof fn identifiers_by_index(b: Seq<u8>, t: Tables, i: int)
    requires
        tables_of(b) == Ok::<Tables, DexIndexErrorView>(t),
    ensures
        t.bytes == b,
        t.field_ids.len() == quad_at(b, 0x50),
        t.method_ids.len() == quad_at(b, 0x58),
        0 <= i < t.field_ids.len() ==> {
            let at = quad_at(b, 0x54) + 8 * i;
            let id = t.field_ids[i];
            id.class_idx == pair_at(b, at) && id.type_idx == pair_at(b, at + 2) && id.name_idx == quad_at(
                b,
                at + 4,
            )
        },
        0 <= i < t.method_ids.len() ==> {
            let at = quad_at(b, 0x5c) + 8 * i;
            let id = t.method_ids[i];
            id.class_idx == pair_at(b, at) && id.proto_idx == pair_at(b, at + 2) && id.name_idx
                == quad_at(b, at + 4)
        },
        strings_of(b) == Ok::<Seq<Seq<char>>, DexIndexErrorView>(t.strings),
        types_of(b, t.strings) == Ok::<Seq<Seq<char>>, DexIndexErrorView>(t.types),
{
    fields_are_numbers(b, 0x50);
    fields_are_numbers(b, 0x54);
    fields_are_numbers(b, 0x58);
    fields_are_numbers(b, 0x5c);
    let f = quad_at(b, 0x54) + 8 * i;
    fields_are_numbers(b, f);
    fields_are_numbers(b, f + 2);
    fields_are_numbers(b, f + 4);
    let m = quad_at(b, 0x5c) + 8 * i;
    fields_are_numbers(b, m);
    fields_are_numbers(b, m + 2);
    fields_are_numbers(b, m + 4);
}

/// A field is known by the string and the type that its identifier names, and belongs to
/// the class that the identifier names; so is a method, by its string and descriptor.
pub proof fn member_names(t: Tables, index: u32, owner: Seq<char>)
    ensures
        match t.field_key(index, owner) {
            Ok((name, kind)) => {
                let id = t.field_ids[index as int];
                &&& index < t.field_ids.len()
                &&& t.types[id.class_idx as int] == owner
                &&& name == t.strings[id.name_idx as int]
                &&& kind == t.types[id.type_idx as int]
            },
            Err(_) => true,
        },
        match t.method_key(index, owner) {
            Ok((name, kind)) => {
                let id = t.method_ids[index as int];
                &&& index < t.method_ids.len()
                &&& t.types[id.class_idx as int] == owner
                &&& name == t.strings[id.name_idx as int]
                &&& kind == t.protos[id.proto_idx as int]
            },
            Err(_) => true,
        },
{
}

/// The numbers of a class definition.
pub proof fn class_definitions(b: Seq<u8>, at: int)
    ensures
        class_def_at(b, at).class_idx == quad_at(b, at),
        class_def_at(b, at).access_flags == quad_at(b, at + 4),
        class_def_at(b, at).superclass_idx == quad_at(b, at + 8),
        class_def_at(b, at).interfaces_off == quad_at(b, at + 12),
        class_def_at(b, at).class_data_off == quad_at(b, at + 24),
{
    fields_are_numbers(b, at);
    fields_are_numbers(b, at + 4);
    fields_are_numbers(b, at + 8);
    fields_are_numbers(b, at + 12);
    fields_are_numbers(b, at + 24);
}

/// A class is known by its type, has the flags of its definition, and the superclass that
/// the definition names, if it names one. A class that is known is refused.
pub proof fn class_heads(t: Tables, def: ClassDef, known: Classes)
    ensures
        match t.class_of(def, known) {
            Ok((name, class)) => {
                &&& def.class_idx < t.types.len() && name == t.types[def.class_idx as int]
                &&& !known.contains_key(name)
                &&& class.access_flags == def.access_flags
                &&& def.superclass_idx == 0xffff_ffff ==> class.superclass is None
                &&& def.superclass_idx != 0xffff_ffff ==> def.superclass_idx < t.types.len()
                    && class.superclass == Some(t.types[def.superclass_idx as int])
                &&& Ok::<Seq<Seq<char>>, DexIndexErrorView>(class.interfaces) == t.type_list(
                    def.interfaces_off,
                )
                &&& def.class_data_off == 0 ==> class.fields.dom() =~= Set::empty()
                    && class.methods.dom() =~= Set::empty()
            },
            Err(_) => true,
        },
{
    if t.class_of(def, known) is Ok && def.class_data_off != 0 {
        let (name, class) = t.class_of(def, known)->Ok_0;
        let start = ClassView {
            interfaces: class.interfaces,
            ..ClassView::empty(def.access_flags, class.superclass)
        };
        assert(t.with_data(def.class_data_off, name, start) is Ok);
        super::file_laws::class_data(t, def.class_data_off, name, start, class);
    }
}

} // verus!
