//! Reading the tables of a DEX file.

use super::class::{optional_text, ClassTable, ClassView, Classes, DexClass, DexMethod};
use super::table::{MemberKey, MemberName, MemberTable};
use crate::bytes::{find_zero, u16_at, u16_le, u32_at, u32_le, zero_from};
use crate::strings::{lossy_text, read_lossy, same_text, texts};
use crate::text::{dec, dec_text, join, join4};
use vstd::prelude::*;
use vstd::slice::slice_subrange;
use vstd::string::StringExecFns;

verus! {

/// The size of the header.
pub const DEX_HEADER_SIZE: usize = 0x70;

/// The index that stands for none.
pub const NO_INDEX: u32 = 0xffff_ffff;

/// Why the classes of a package cannot be indexed.
#[derive(Debug, Clone, PartialEq, Eq)]
pub enum DexIndexError {
    Zip(String),
    Truncated(&'static str),
    Invalid(&'static str),
    InvalidIndex(&'static str, u32),
}

/// A [`DexIndexError`] as a mathematical value.
pub enum DexIndexErrorView {
    Zip(Seq<char>),
    Truncated(Seq<char>),
    Invalid(Seq<char>),
    InvalidIndex(Seq<char>, u32),
}

impl View for DexIndexError {
    type V = DexIndexErrorView;

    open spec fn view(&self) -> DexIndexErrorView {
        match self {
            DexIndexError::Zip(err) => DexIndexErrorView::Zip(err@),
            DexIndexError::Truncated(what) => DexIndexErrorView::Truncated(what@),
            DexIndexError::Invalid(what) => DexIndexErrorView::Invalid(what@),
            DexIndexError::InvalidIndex(what, index) => DexIndexErrorView::InvalidIndex(
                what@,
                *index,
            ),
        }
    }
}

impl DexIndexErrorView {
    /// The message for this error.
    pub open spec fn text(self) -> Seq<char> {
        match self {
            DexIndexErrorView::Zip(err) => "APK ZIP: "@ + err,
            DexIndexErrorView::Truncated(what) => "truncated DEX "@ + what,
            DexIndexErrorView::Invalid(what) => "invalid DEX "@ + what,
            DexIndexErrorView::InvalidIndex(what, index) => "invalid DEX "@ + what + " index "@
                + dec_text(index as nat),
        }
    }
}

impl DexIndexError {
    /// The message for this error.
    pub fn to_string(&self) -> (r: String)
        ensures
            r@ == self@.text(),
    {
        match self {
            DexIndexError::Zip(err) => join("APK ZIP: ", err.as_str()),
            DexIndexError::Truncated(what) => join("truncated DEX ", what),
            DexIndexError::Invalid(what) => join("invalid DEX ", what),
            DexIndexError::InvalidIndex(what, index) => join4(
                "invalid DEX ",
                what,
                " index ",
                dec(*index as u64).as_str(),
            ),
        }
    }
}

/// A result with its error taken by view.
pub type Checked<T> = core::result::Result<T, DexIndexErrorView>;

/// A result with its error taken by view.
pub open spec fn checked<T>(r: Result<T, DexIndexError>) -> Checked<T> {
    match r {
        Ok(v) => Ok(v),
        Err(e) => Err(e@),
    }
}

/// A list with its error taken by view.
pub open spec fn checked_list<T>(r: Result<Vec<T>, DexIndexError>) -> Checked<Seq<T>> {
    match r {
        Ok(v) => Ok(v@),
        Err(e) => Err(e@),
    }
}

/// A list of texts with its error taken by view.
pub open spec fn checked_texts(r: Result<Vec<String>, DexIndexError>) -> Checked<Seq<Seq<char>>> {
    match r {
        Ok(v) => Ok(texts(v@)),
        Err(e) => Err(e@),
    }
}

/// A text with its error taken by view.
pub open spec fn checked_str(r: Result<&str, DexIndexError>) -> Checked<Seq<char>> {
    match r {
        Ok(v) => Ok(v@),
        Err(e) => Err(e@),
    }
}

/// A field identifier.
#[derive(Debug, Clone, Copy)]
pub struct FieldId {
    pub class_idx: u16,
    pub type_idx: u16,
    pub name_idx: u32,
}

/// A method identifier.
#[derive(Debug, Clone, Copy)]
pub struct MethodId {
    pub class_idx: u16,
    pub proto_idx: u16,
    pub name_idx: u32,
}

/// A class definition, as far as the index needs it.
#[derive(Debug, Clone, Copy)]
pub struct ClassDef {
    pub class_idx: u32,
    pub access_flags: u32,
    pub superclass_idx: u32,
    pub interfaces_off: u32,
    pub class_data_off: u32,
}

/// The word at `off`, if it lies inside.
pub open spec fn word_at(b: Seq<u8>, off: int) -> Checked<u32> {
    if off + 4 <= b.len() {
        Ok(u32_at(b, off))
    } else {
        Err(DexIndexErrorView::Truncated("u32"@))
    }
}

/// The number at `cursor` in little-endian base 128, of which `k` bytes have
/// been read into `value`, and where it ends. A number has at most five bytes,
/// and the last of five only four bits.
pub open spec fn uleb_from(b: Seq<u8>, cursor: int, k: int, value: u32) -> Checked<(u32, int)>
    decreases 5 - k,
{
    if k >= 5 {
        Err(DexIndexErrorView::Invalid("ULEB128"@))
    } else if cursor >= b.len() {
        Err(DexIndexErrorView::Truncated("ULEB128"@))
    } else if k == 4 && b[cursor] & 0xf0 != 0 {
        Err(DexIndexErrorView::Invalid("ULEB128 overflow"@))
    } else {
        let next = value | (((b[cursor] & 0x7f) as u32) << ((7 * k) as u32));
        if b[cursor] & 0x80 == 0 {
            Ok((next, cursor + 1))
        } else {
            uleb_from(b, cursor + 1, k + 1, next)
        }
    }
}

/// The number at `cursor` and where it ends.
pub open spec fn uleb(b: Seq<u8>, cursor: int) -> Checked<(u32, int)> {
    uleb_from(b, cursor, 0, 0)
}

/// A number ends inside the file, behind its start.
pub proof fn uleb_ends_inside(b: Seq<u8>, cursor: int, k: int, value: u32)
    requires
        0 <= k <= 5,
    ensures
        match uleb_from(b, cursor, k, value) {
            Ok((_, end)) => cursor < end <= b.len(),
            Err(_) => true,
        },
    decreases 5 - k,
{
    if k < 5 && cursor < b.len() {
        uleb_ends_inside(
            b,
            cursor + 1,
            k + 1,
            value | (((b[cursor] & 0x7f) as u32) << ((7 * k) as u32)),
        );
    }
}

/// Whether a table of `count` entries of `size` bytes at `base` lies in a file
/// of `len` bytes.
pub open spec fn table_fits(base: u32, count: u32, size: int, len: nat) -> Checked<()> {
    if count * size > u32::MAX {
        Err(DexIndexErrorView::Invalid("table size overflow"@))
    } else if base + count * size > u32::MAX {
        Err(DexIndexErrorView::Invalid("table offset overflow"@))
    } else if base + count * size > len {
        Err(DexIndexErrorView::Truncated("table"@))
    } else {
        Ok(())
    }
}

/// Where an entry of a table stands, if it lies inside a file of `len` bytes.
pub open spec fn entry_offset(base: int, index: int, size: int, len: nat) -> Checked<int> {
    let off = base + index * size;
    if index * size > u32::MAX || off > u32::MAX || off + size > usize::MAX {
        Err(DexIndexErrorView::Invalid("table offset overflow"@))
    } else if off + size > len {
        Err(DexIndexErrorView::Truncated("table"@))
    } else {
        Ok(off)
    }
}

/// The text whose offset stands at `at`.
pub open spec fn string_at(b: Seq<u8>, at: int) -> Checked<Seq<char>> {
    match uleb(b, u32_at(b, at) as int) {
        Err(e) => Err(e),
        Ok((_, start)) => {
            let end = zero_from(b, start);
            if end >= b.len() {
                Err(DexIndexErrorView::Truncated("string data"@))
            } else {
                Ok(lossy_text(b.subrange(start, end)))
            }
        },
    }
}

/// `acc` and the texts of a table from entry `idx` on.
pub open spec fn strings_from(b: Seq<u8>, base: u32, count: u32, idx: int, acc: Seq<Seq<char>>) -> Checked<
    Seq<Seq<char>>,
>
    decreases count - idx,
{
    if idx >= count {
        Ok(acc)
    } else {
        match string_at(b, base + 4 * idx) {
            Err(e) => Err(e),
            Ok(s) => strings_from(b, base, count, idx + 1, acc.push(s)),
        }
    }
}

/// An entry of a list of texts.
pub open spec fn entry(list: Seq<Seq<char>>, what: Seq<char>, index: u32) -> Checked<Seq<char>> {
    if index < list.len() {
        Ok(list[index as int])
    } else {
        Err(DexIndexErrorView::InvalidIndex(what, index))
    }
}

/// `acc` and the types of a table from entry `idx` on.
pub open spec fn types_from(
    b: Seq<u8>,
    strings: Seq<Seq<char>>,
    base: u32,
    count: u32,
    idx: int,
    acc: Seq<Seq<char>>,
) -> Checked<Seq<Seq<char>>>
    decreases count - idx,
{
    if idx >= count {
        Ok(acc)
    } else {
        match entry(strings, "string"@, u32_at(b, base + 4 * idx)) {
            Err(e) => Err(e),
            Ok(s) => types_from(b, strings, base, count, idx + 1, acc.push(s)),
        }
    }
}

/// `acc` and the parameter types of a list from entry `idx` on.
pub open spec fn parameters_from(
    b: Seq<u8>,
    types: Seq<Seq<char>>,
    base: int,
    count: u32,
    idx: int,
    acc: Seq<char>,
) -> Checked<Seq<char>>
    decreases count - idx,
{
    if idx >= count {
        Ok(acc)
    } else {
        match entry_offset(base, idx, 2, b.len()) {
            Err(e) => Err(e),
            Ok(off) => match entry(types, "type"@, u16_at(b, off) as u32) {
                Err(e) => Err(e),
                Ok(s) => parameters_from(b, types, base, count, idx + 1, acc + s),
            },
        }
    }
}

/// The method descriptor of the prototype at `at`.
pub open spec fn proto_at(b: Seq<u8>, types: Seq<Seq<char>>, at: int) -> Checked<Seq<char>> {
    let parameters_off = u32_at(b, at + 8);
    let parameters = if parameters_off == 0 {
        Ok("("@)
    } else {
        match word_at(b, parameters_off as int) {
            Err(e) => Err(e),
            Ok(count) => parameters_from(b, types, parameters_off + 4, count, 0, "("@),
        }
    };
    match parameters {
        Err(e) => Err(e),
        Ok(head) => match entry(types, "type"@, u32_at(b, at + 4)) {
            Err(e) => Err(e),
            Ok(returned) => Ok(head + ")"@ + returned),
        },
    }
}

/// `acc` and the method descriptors of a table from entry `idx` on.
pub open spec fn protos_from(
    b: Seq<u8>,
    types: Seq<Seq<char>>,
    base: u32,
    count: u32,
    idx: int,
    acc: Seq<Seq<char>>,
) -> Checked<Seq<Seq<char>>>
    decreases count - idx,
{
    if idx >= count {
        Ok(acc)
    } else {
        match proto_at(b, types, base + 12 * idx) {
            Err(e) => Err(e),
            Ok(s) => protos_from(b, types, base, count, idx + 1, acc.push(s)),
        }
    }
}

/// The field identifier at `at`.
pub open spec fn field_id_at(b: Seq<u8>, at: int) -> FieldId {
    FieldId {
        class_idx: u16_at(b, at),
        type_idx: u16_at(b, at + 2),
        name_idx: u32_at(b, at + 4),
    }
}

/// The method identifier at `at`.
pub open spec fn method_id_at(b: Seq<u8>, at: int) -> MethodId {
    MethodId {
        class_idx: u16_at(b, at),
        proto_idx: u16_at(b, at + 2),
        name_idx: u32_at(b, at + 4),
    }
}

/// The class definition at `at`.
pub open spec fn class_def_at(b: Seq<u8>, at: int) -> ClassDef {
    ClassDef {
        class_idx: u32_at(b, at),
        access_flags: u32_at(b, at + 4),
        superclass_idx: u32_at(b, at + 8),
        interfaces_off: u32_at(b, at + 12),
        class_data_off: u32_at(b, at + 24),
    }
}

/// The texts of a file.
pub open spec fn strings_of(b: Seq<u8>) -> Checked<Seq<Seq<char>>> {
    let (count, base) = (u32_at(b, 0x38), u32_at(b, 0x3c));
    match table_fits(base, count, 4, b.len()) {
        Err(e) => Err(e),
        Ok(_) => strings_from(b, base, count, 0, Seq::empty()),
    }
}

/// The types of a file.
pub open spec fn types_of(b: Seq<u8>, strings: Seq<Seq<char>>) -> Checked<Seq<Seq<char>>> {
    let (count, base) = (u32_at(b, 0x40), u32_at(b, 0x44));
    match table_fits(base, count, 4, b.len()) {
        Err(e) => Err(e),
        Ok(_) => types_from(b, strings, base, count, 0, Seq::empty()),
    }
}

/// The method descriptors of a file.
pub open spec fn protos_of(b: Seq<u8>, types: Seq<Seq<char>>) -> Checked<Seq<Seq<char>>> {
    let (count, base) = (u32_at(b, 0x48), u32_at(b, 0x4c));
    match table_fits(base, count, 12, b.len()) {
        Err(e) => Err(e),
        Ok(_) => protos_from(b, types, base, count, 0, Seq::empty()),
    }
}

/// The field identifiers of a file.
pub open spec fn field_ids_of(b: Seq<u8>) -> Checked<Seq<FieldId>> {
    let (count, base) = (u32_at(b, 0x50), u32_at(b, 0x54));
    match table_fits(base, count, 8, b.len()) {
        Err(e) => Err(e),
        Ok(_) => Ok(Seq::new(count as nat, |i: int| field_id_at(b, base + 8 * i))),
    }
}

/// The method identifiers of a file.
pub open spec fn method_ids_of(b: Seq<u8>) -> Checked<Seq<MethodId>> {
    let (count, base) = (u32_at(b, 0x58), u32_at(b, 0x5c));
    match table_fits(base, count, 8, b.len()) {
        Err(e) => Err(e),
        Ok(_) => Ok(Seq::new(count as nat, |i: int| method_id_at(b, base + 8 * i))),
    }
}

/// The class definitions of a file.
pub open spec fn class_defs_of(b: Seq<u8>) -> Checked<Seq<ClassDef>> {
    let (count, base) = (u32_at(b, 0x60), u32_at(b, 0x64));
    match table_fits(base, count, 32, b.len()) {
        Err(e) => Err(e),
        Ok(_) => Ok(Seq::new(count as nat, |i: int| class_def_at(b, base + 32 * i))),
    }
}

/// The tables of a file.
pub struct Tables {
    pub bytes: Seq<u8>,
    pub strings: Seq<Seq<char>>,
    pub types: Seq<Seq<char>>,
    pub protos: Seq<Seq<char>>,
    pub field_ids: Seq<FieldId>,
    pub method_ids: Seq<MethodId>,
}

/// What is wrong with a header, if anything.
pub open spec fn header_error(b: Seq<u8>) -> Option<DexIndexErrorView> {
    if b.len() < DEX_HEADER_SIZE {
        Some(DexIndexErrorView::Truncated("header"@))
    } else if !(b[0] == 0x64 && b[1] == 0x65 && b[2] == 0x78 && b[3] == 0x0a) || b[7] != 0 {
        Some(DexIndexErrorView::Invalid("magic"@))
    } else if u32_at(b, 0x20) != b.len() {
        Some(DexIndexErrorView::Invalid("file size"@))
    } else if u32_at(b, 0x24) != DEX_HEADER_SIZE {
        Some(DexIndexErrorView::Invalid("header size"@))
    } else if u32_at(b, 0x28) != 0x1234_5678 {
        Some(DexIndexErrorView::Invalid("endian tag"@))
    } else {
        None
    }
}

/// The tables of a file. The first that is bad decides the error.
pub open spec fn tables_of(b: Seq<u8>) -> Checked<Tables> {
    match header_error(b) {
        Some(e) => Err(e),
        None => match strings_of(b) {
            Err(e) => Err(e),
            Ok(strings) => match types_of(b, strings) {
                Err(e) => Err(e),
                Ok(types) => match protos_of(b, types) {
                    Err(e) => Err(e),
                    Ok(protos) => match (field_ids_of(b), method_ids_of(b)) {
                        (Err(e), _) => Err(e),
                        (_, Err(e)) => Err(e),
                        (Ok(field_ids), Ok(method_ids)) => Ok(
                            Tables { bytes: b, strings, types, protos, field_ids, method_ids },
                        ),
                    },
                },
            },
        },
    }
}

impl Tables {
    /// A type.
    pub open spec fn type_at(self, index: u32) -> Checked<Seq<char>> {
        entry(self.types, "type"@, index)
    }

    /// A text.
    pub open spec fn string(self, index: u32) -> Checked<Seq<char>> {
        entry(self.strings, "string"@, index)
    }

    /// `acc` and the types of a type list from entry `idx` on.
    pub open spec fn type_list_from(
        self,
        base: int,
        count: u32,
        idx: int,
        acc: Seq<Seq<char>>,
    ) -> Checked<Seq<Seq<char>>>
        decreases count - idx,
    {
        if idx >= count {
            Ok(acc)
        } else {
            match self.type_at(u16_at(self.bytes, base + 2 * idx) as u32) {
                Err(e) => Err(e),
                Ok(s) => self.type_list_from(base, count, idx + 1, acc.push(s)),
            }
        }
    }

    /// The types of a type list. There are none at offset zero.
    pub open spec fn type_list(self, offset: u32) -> Checked<Seq<Seq<char>>> {
        if offset == 0 {
            Ok(Seq::empty())
        } else {
            match word_at(self.bytes, offset as int) {
                Err(e) => Err(e),
                Ok(count) => if offset + 4 > u32::MAX {
                    Err(DexIndexErrorView::Invalid("type-list offset overflow"@))
                } else {
                    match table_fits((offset + 4) as u32, count, 2, self.bytes.len()) {
                        Err(e) => Err(e),
                        Ok(_) => self.type_list_from(offset + 4, count, 0, Seq::empty()),
                    }
                },
            }
        }
    }

    /// The field with an identifier: its name and type.
    pub open spec fn field_key(self, index: u32, owner: Seq<char>) -> Checked<MemberName> {
        if index >= self.field_ids.len() {
            Err(DexIndexErrorView::InvalidIndex("field"@, index))
        } else {
            let field = self.field_ids[index as int];
            match self.type_at(field.class_idx as u32) {
                Err(e) => Err(e),
                Ok(class) => if class != owner {
                    Err(DexIndexErrorView::Invalid("encoded field owner"@))
                } else {
                    match (self.string(field.name_idx), self.type_at(field.type_idx as u32)) {
                        (Err(e), _) => Err(e),
                        (_, Err(e)) => Err(e),
                        (Ok(name), Ok(descriptor)) => Ok((name, descriptor)),
                    }
                },
            }
        }
    }

    /// The method with an identifier: its name and descriptor.
    pub open spec fn method_key(self, index: u32, owner: Seq<char>) -> Checked<MemberName> {
        if index >= self.method_ids.len() {
            Err(DexIndexErrorView::InvalidIndex("method"@, index))
        } else {
            let method = self.method_ids[index as int];
            match self.type_at(method.class_idx as u32) {
                Err(e) => Err(e),
                Ok(class) => if class != owner {
                    Err(DexIndexErrorView::Invalid("encoded method owner"@))
                } else {
                    match (
                        entry(self.protos, "proto"@, method.proto_idx as u32),
                        self.string(method.name_idx),
                    ) {
                        (Err(e), _) => Err(e),
                        (_, Err(e)) => Err(e),
                        (Ok(descriptor), Ok(name)) => Ok((name, descriptor)),
                    }
                },
            }
        }
    }

    /// The next identifier of an encoded list: the one before plus a difference.
    pub open spec fn next_index(self, cursor: int, index: u32, what: Seq<char>) -> Checked<
        (u32, int),
    > {
        match uleb(self.bytes, cursor) {
            Err(e) => Err(e),
            Ok((step, next)) => if index + step > u32::MAX {
                Err(DexIndexErrorView::Invalid(what))
            } else {
                Ok(((index + step) as u32, next))
            },
        }
    }

    /// `acc` and the next `left` encoded fields, and where they end.
    pub open spec fn fields_from(
        self,
        cursor: int,
        left: int,
        index: u32,
        owner: Seq<char>,
        acc: Map<MemberName, u32>,
    ) -> Checked<(int, Map<MemberName, u32>)>
        decreases left,
    {
        if left <= 0 {
            Ok((cursor, acc))
        } else {
            match self.next_index(cursor, index, "field index overflow"@) {
                Err(e) => Err(e),
                Ok((index, cursor)) => match uleb(self.bytes, cursor) {
                    Err(e) => Err(e),
                    Ok((flags, cursor)) => match self.field_key(index, owner) {
                        Err(e) => Err(e),
                        Ok(key) => if acc.contains_key(key) {
                            Err(DexIndexErrorView::Invalid("duplicate encoded field"@))
                        } else {
                            self.fields_from(cursor, left - 1, index, owner, acc.insert(key, flags))
                        },
                    },
                },
            }
        }
    }

    /// `acc` and the next `left` encoded methods, and where they end.
    pub open spec fn methods_from(
        self,
        cursor: int,
        left: int,
        index: u32,
        owner: Seq<char>,
        is_direct: bool,
        acc: Map<MemberName, DexMethod>,
    ) -> Checked<(int, Map<MemberName, DexMethod>)>
        decreases left,
    {
        if left <= 0 {
            Ok((cursor, acc))
        } else {
            match self.next_index(cursor, index, "method index overflow"@) {
                Err(e) => Err(e),
                Ok((index, cursor)) => match uleb(self.bytes, cursor) {
                    Err(e) => Err(e),
                    Ok((access_flags, cursor)) => match uleb(self.bytes, cursor) {
                        Err(e) => Err(e),
                        Ok((_, cursor)) => match self.method_key(index, owner) {
                            Err(e) => Err(e),
                            Ok(key) => if acc.contains_key(key) {
                                Err(DexIndexErrorView::Invalid("duplicate encoded method"@))
                            } else {
                                self.methods_from(
                                    cursor,
                                    left - 1,
                                    index,
                                    owner,
                                    is_direct,
                                    acc.insert(key, DexMethod { access_flags, is_direct }),
                                )
                            },
                        },
                    },
                },
            }
        }
    }

    /// The four counts at the start of class data, and where they end.
    pub open spec fn counts_at(self, cursor: int) -> Checked<(u32, u32, u32, u32, int)> {
        match uleb(self.bytes, cursor) {
            Err(e) => Err(e),
            Ok((n0, cursor)) => match uleb(self.bytes, cursor) {
                Err(e) => Err(e),
                Ok((n1, cursor)) => match uleb(self.bytes, cursor) {
                    Err(e) => Err(e),
                    Ok((n2, cursor)) => match uleb(self.bytes, cursor) {
                        Err(e) => Err(e),
                        Ok((n3, cursor)) => Ok((n0, n1, n2, n3, cursor)),
                    },
                },
            },
        }
    }

    /// A class with its class data taken in: static fields, instance fields,
    /// direct methods and virtual methods.
    pub open spec fn with_data(self, offset: u32, owner: Seq<char>, class: ClassView) -> Checked<
        ClassView,
    > {
        match self.counts_at(offset as int) {
            Err(e) => Err(e),
            Ok((n0, n1, n2, n3, c0)) => match self.fields_from(
                c0,
                n0 as int,
                0,
                owner,
                class.fields,
            ) {
                Err(e) => Err(e),
                Ok((c1, f1)) => match self.fields_from(c1, n1 as int, 0, owner, f1) {
                    Err(e) => Err(e),
                    Ok((c2, f2)) => match self.methods_from(
                        c2,
                        n2 as int,
                        0,
                        owner,
                        true,
                        class.methods,
                    ) {
                        Err(e) => Err(e),
                        Ok((c3, m1)) => match self.methods_from(
                            c3,
                            n3 as int,
                            0,
                            owner,
                            false,
                            m1,
                        ) {
                            Err(e) => Err(e),
                            Ok((_, m2)) => Ok(ClassView { fields: f2, methods: m2, ..class }),
                        },
                    },
                },
            },
        }
    }

    /// A class definition with its descriptor. It must not be known yet.
    pub open spec fn class_of(self, def: ClassDef, known: Classes) -> Checked<
        (Seq<char>, ClassView),
    > {
        match self.type_at(def.class_idx) {
            Err(e) => Err(e),
            Ok(descriptor) => {
                let superclass = if def.superclass_idx == NO_INDEX {
                    Ok(None)
                } else {
                    match self.type_at(def.superclass_idx) {
                        Err(e) => Err(e),
                        Ok(name) => Ok(Some(name)),
                    }
                };
                match superclass {
                    Err(e) => Err(e),
                    Ok(superclass) => if known.contains_key(descriptor) {
                        Err(DexIndexErrorView::Invalid("duplicate class definition"@))
                    } else {
                        match self.type_list(def.interfaces_off) {
                            Err(e) => Err(e),
                            Ok(interfaces) => {
                                let class = ClassView {
                                    interfaces,
                                    ..ClassView::empty(def.access_flags, superclass)
                                };
                                if def.class_data_off == 0 {
                                    Ok((descriptor, class))
                                } else {
                                    match self.with_data(def.class_data_off, descriptor, class) {
                                        Err(e) => Err(e),
                                        Ok(class) => Ok((descriptor, class)),
                                    }
                                }
                            },
                        }
                    },
                }
            },
        }
    }

    /// `acc` and the classes of the definitions from `idx` on.
    pub open spec fn classes_from(self, defs: Seq<ClassDef>, idx: int, acc: Classes) -> Checked<
        Classes,
    >
        decreases defs.len() - idx,
    {
        if idx >= defs.len() {
            Ok(acc)
        } else {
            match self.class_of(defs[idx], acc) {
                Err(e) => Err(e),
                Ok((descriptor, class)) => self.classes_from(
                    defs,
                    idx + 1,
                    acc.insert(descriptor, class),
                ),
            }
        }
    }
}

/// `known` and the classes of a file.
pub open spec fn with_dex(b: Seq<u8>, known: Classes) -> Checked<Classes> {
    match tables_of(b) {
        Err(e) => Err(e),
        Ok(tables) => match class_defs_of(b) {
            Err(e) => Err(e),
            Ok(defs) => tables.classes_from(defs, 0, known),
        },
    }
}

fn read_u16(bytes: &[u8], off: usize) -> (r: u16)
    requires
        off + 2 <= bytes@.len(),
    ensures
        r == u16_at(bytes@, off as int),
{
    match u16_le(bytes, off) {
        Some(v) => v,
        None => 0,
    }
}

fn read_u32(bytes: &[u8], off: usize) -> (r: Result<u32, DexIndexError>)
    ensures
        checked(r) == word_at(bytes@, off as int),
{
    match u32_le(bytes, off) {
        Some(v) => Ok(v),
        None => Err(DexIndexError::Truncated("u32")),
    }
}

fn read_uleb128(bytes: &[u8], cursor: &mut usize) -> (r: Result<u32, DexIndexError>)
    ensures
        match r {
            Ok(v) => uleb(bytes@, *old(cursor) as int) == Ok::<(u32, int), DexIndexErrorView>(
                (v, *final(cursor) as int),
            ) && *final(cursor) <= bytes@.len(),
            Err(e) => uleb(bytes@, *old(cursor) as int) == Err::<(u32, int), DexIndexErrorView>(
                e@,
            ),
        },
{
    let mut at: usize = *cursor;
    let mut value: u32 = 0;
    let mut k: u32 = 0;
    while k < 5
        invariant
            k <= 5,
            uleb(bytes@, *old(cursor) as int) == uleb_from(bytes@, at as int, k as int, value),
        decreases 5 - k,
    {
        if at >= bytes.len() {
            return Err(DexIndexError::Truncated("ULEB128"));
        }
        let byte = bytes[at];
        if k == 4 && byte & 0xf0 != 0 {
            return Err(DexIndexError::Invalid("ULEB128 overflow"));
        }
        at += 1;
        value = value | (((byte & 0x7f) as u32) << (7 * k));
        if byte & 0x80 == 0 {
            *cursor = at;
            return Ok(value);
        }
        k += 1;
    }
    Err(DexIndexError::Invalid("ULEB128"))
}

fn checked_table_len(base: u32, count: u32, item_size: u32, file_len: usize) -> (r: Result<
    (),
    DexIndexError,
>)
    ensures
        checked(r) == table_fits(base, count, item_size as int, file_len as nat),
{
    let byte_len = match count.checked_mul(item_size) {
        Some(byte_len) => byte_len,
        None => return Err(DexIndexError::Invalid("table size overflow")),
    };
    let end = match base.checked_add(byte_len) {
        Some(end) => end,
        None => return Err(DexIndexError::Invalid("table offset overflow")),
    };
    if end as usize > file_len {
        return Err(DexIndexError::Truncated("table"));
    }
    Ok(())
}

fn table_offset(base: u32, index: u32, item_size: u32, len: usize) -> (r: Result<
    usize,
    DexIndexError,
>)
    ensures
        match r {
            Ok(off) => entry_offset(base as int, index as int, item_size as int, len as nat) == Ok::<
                int,
                DexIndexErrorView,
            >(off as int),
            Err(e) => entry_offset(base as int, index as int, item_size as int, len as nat)
                == Err::<int, DexIndexErrorView>(e@),
        },
{
    let rel = match index.checked_mul(item_size) {
        Some(rel) => rel,
        None => return Err(DexIndexError::Invalid("table offset overflow")),
    };
    let offset = match base.checked_add(rel) {
        Some(offset) => offset as usize,
        None => return Err(DexIndexError::Invalid("table offset overflow")),
    };
    let end = match offset.checked_add(item_size as usize) {
        Some(end) => end,
        None => return Err(DexIndexError::Invalid("table offset overflow")),
    };
    if end > len {
        return Err(DexIndexError::Truncated("table"));
    }
    Ok(offset)
}

#[verifier::loop_isolation(false)]
fn read_strings(bytes: &[u8]) -> (r: Result<Vec<String>, DexIndexError>)
    requires
        bytes@.len() >= DEX_HEADER_SIZE,
    ensures
        checked_texts(r) == strings_of(bytes@),
{
    let size = read_u32(bytes, 0x38)?;
    let offset = read_u32(bytes, 0x3c)?;
    checked_table_len(offset, size, 4, bytes.len())?;
    let mut out: Vec<String> = Vec::new();
    assert(texts(out@) =~= Seq::empty());
    let mut index: u32 = 0;
    while index < size
        invariant
            index <= size,
            strings_of(bytes@) == strings_from(
                bytes@,
                offset,
                size,
                index as int,
                texts(out@),
            ),
        decreases size - index,
    {
        let mut cursor = read_u32(bytes, (offset + index * 4) as usize)? as usize;
        read_uleb128(bytes, &mut cursor)?;
        let end = match find_zero(bytes, cursor) {
            Some(end) => end,
            None => return Err(DexIndexError::Truncated("string data")),
        };
        let text = read_lossy(slice_subrange(bytes, cursor, end));
        assert(texts(out@.push(text)) =~= texts(out@).push(text@));
        out.push(text);
        index += 1;
    }
    Ok(out)
}

#[verifier::loop_isolation(false)]
fn read_types(bytes: &[u8], strings: &Vec<String>) -> (r: Result<Vec<String>, DexIndexError>)
    requires
        bytes@.len() >= DEX_HEADER_SIZE,
    ensures
        checked_texts(r) == types_of(bytes@, texts(strings@)),
{
    let size = read_u32(bytes, 0x40)?;
    let offset = read_u32(bytes, 0x44)?;
    checked_table_len(offset, size, 4, bytes.len())?;
    let mut out: Vec<String> = Vec::new();
    assert(texts(out@) =~= Seq::empty());
    let mut index: u32 = 0;
    while index < size
        invariant
            index <= size,
            types_of(bytes@, texts(strings@)) == types_from(
                bytes@,
                texts(strings@),
                offset,
                size,
                index as int,
                texts(out@),
            ),
        decreases size - index,
    {
        let string_index = read_u32(bytes, (offset + index * 4) as usize)?;
        if string_index as usize >= strings.len() {
            return Err(DexIndexError::InvalidIndex("string", string_index));
        }
        let text = strings[string_index as usize].clone();
        assert(texts(strings@)[string_index as int] == text@);
        assert(texts(out@.push(text)) =~= texts(out@).push(text@));
        out.push(text);
        index += 1;
    }
    Ok(out)
}

/// The parameters of a method descriptor behind its opening bracket.
#[verifier::loop_isolation(false)]
fn read_parameters(bytes: &[u8], types: &Vec<String>, base: u32, count: u32) -> (r: Result<
    String,
    DexIndexError,
>)
    ensures
        match r {
            Ok(s) => parameters_from(bytes@, texts(types@), base as int, count, 0, "("@) == Ok::<
                Seq<char>,
                DexIndexErrorView,
            >(s@),
            Err(e) => parameters_from(bytes@, texts(types@), base as int, count, 0, "("@) == Err::<
                Seq<char>,
                DexIndexErrorView,
            >(e@),
        },
{
    let mut descriptor = String::from_str("(");
    let mut parameter: u32 = 0;
    while parameter < count
        invariant
            parameter <= count,
            parameters_from(bytes@, texts(types@), base as int, count, 0, "("@) == parameters_from(
                bytes@,
                texts(types@),
                base as int,
                count,
                parameter as int,
                descriptor@,
            ),
        decreases count - parameter,
    {
        let item = table_offset(base, parameter, 2, bytes.len())?;
        let type_index = read_u16(bytes, item);
        if type_index as usize >= types.len() {
            return Err(DexIndexError::InvalidIndex("type", type_index as u32));
        }
        assert(texts(types@)[type_index as int] == types@[type_index as int]@);
        descriptor.append(types[type_index as usize].as_str());
        parameter += 1;
    }
    Ok(descriptor)
}

fn read_proto(bytes: &[u8], types: &Vec<String>, at: usize) -> (r: Result<String, DexIndexError>)
    requires
        at + 12 <= bytes@.len() <= u32::MAX,
    ensures
        match r {
            Ok(s) => proto_at(bytes@, texts(types@), at as int) == Ok::<
                Seq<char>,
                DexIndexErrorView,
            >(s@),
            Err(e) => proto_at(bytes@, texts(types@), at as int) == Err::<
                Seq<char>,
                DexIndexErrorView,
            >(e@),
        },
{
    let return_type = read_u32(bytes, at + 4)?;
    let parameters_off = read_u32(bytes, at + 8)?;
    let mut descriptor = if parameters_off != 0 {
        let parameter_count = read_u32(bytes, parameters_off as usize)?;
        read_parameters(bytes, types, parameters_off + 4, parameter_count)?
    } else {
        String::from_str("(")
    };
    descriptor.append(")");
    if return_type as usize >= types.len() {
        return Err(DexIndexError::InvalidIndex("type", return_type));
    }
    assert(texts(types@)[return_type as int] == types@[return_type as int]@);
    descriptor.append(types[return_type as usize].as_str());
    Ok(descriptor)
}

#[verifier::loop_isolation(false)]
fn read_protos(bytes: &[u8], types: &Vec<String>) -> (r: Result<Vec<String>, DexIndexError>)
    requires
        DEX_HEADER_SIZE <= bytes@.len() <= u32::MAX,
    ensures
        checked_texts(r) == protos_of(bytes@, texts(types@)),
{
    let size = read_u32(bytes, 0x48)?;
    let offset = read_u32(bytes, 0x4c)?;
    checked_table_len(offset, size, 12, bytes.len())?;
    let mut out: Vec<String> = Vec::new();
    assert(texts(out@) =~= Seq::empty());
    let mut index: u32 = 0;
    while index < size
        invariant
            index <= size,
            protos_of(bytes@, texts(types@)) == protos_from(
                bytes@,
                texts(types@),
                offset,
                size,
                index as int,
                texts(out@),
            ),
        decreases size - index,
    {
        let text = read_proto(bytes, types, (offset + index * 12) as usize)?;
        assert(texts(out@.push(text)) =~= texts(out@).push(text@));
        out.push(text);
        index += 1;
    }
    Ok(out)
}

#[verifier::loop_isolation(false)]
fn read_field_ids(bytes: &[u8]) -> (r: Result<Vec<FieldId>, DexIndexError>)
    requires
        bytes@.len() >= DEX_HEADER_SIZE,
    ensures
        checked_list(r) == field_ids_of(bytes@),
{
    let size = read_u32(bytes, 0x50)?;
    let offset = read_u32(bytes, 0x54)?;
    checked_table_len(offset, size, 8, bytes.len())?;
    let mut out: Vec<FieldId> = Vec::new();
    let mut index: u32 = 0;
    while index < size
        invariant
            index <= size,
            out@ =~= Seq::new(index as nat, |i: int| field_id_at(bytes@, offset + 8 * i)),
        decreases size - index,
    {
        let item = (offset + index * 8) as usize;
        out.push(
            FieldId {
                class_idx: read_u16(bytes, item),
                type_idx: read_u16(bytes, item + 2),
                name_idx: read_u32(bytes, item + 4)?,
            },
        );
        index += 1;
    }
    Ok(out)
}

#[verifier::loop_isolation(false)]
fn read_method_ids(bytes: &[u8]) -> (r: Result<Vec<MethodId>, DexIndexError>)
    requires
        bytes@.len() >= DEX_HEADER_SIZE,
    ensures
        checked_list(r) == method_ids_of(bytes@),
{
    let size = read_u32(bytes, 0x58)?;
    let offset = read_u32(bytes, 0x5c)?;
    checked_table_len(offset, size, 8, bytes.len())?;
    let mut out: Vec<MethodId> = Vec::new();
    let mut index: u32 = 0;
    while index < size
        invariant
            index <= size,
            out@ =~= Seq::new(index as nat, |i: int| method_id_at(bytes@, offset + 8 * i)),
        decreases size - index,
    {
        let item = (offset + index * 8) as usize;
        out.push(
            MethodId {
                class_idx: read_u16(bytes, item),
                proto_idx: read_u16(bytes, item + 2),
                name_idx: read_u32(bytes, item + 4)?,
            },
        );
        index += 1;
    }
    Ok(out)
}

#[verifier::loop_isolation(false)]
fn read_class_defs(bytes: &[u8]) -> (r: Result<Vec<ClassDef>, DexIndexError>)
    requires
        bytes@.len() >= DEX_HEADER_SIZE,
    ensures
        checked_list(r) == class_defs_of(bytes@),
{
    let size = read_u32(bytes, 0x60)?;
    let offset = read_u32(bytes, 0x64)?;
    checked_table_len(offset, size, 32, bytes.len())?;
    let mut out: Vec<ClassDef> = Vec::new();
    let mut index: u32 = 0;
    while index < size
        invariant
            index <= size,
            out@ =~= Seq::new(index as nat, |i: int| class_def_at(bytes@, offset + 32 * i)),
        decreases size - index,
    {
        let item = (offset + index * 32) as usize;
        out.push(
            ClassDef {
                class_idx: read_u32(bytes, item)?,
                access_flags: read_u32(bytes, item + 4)?,
                superclass_idx: read_u32(bytes, item + 8)?,
                interfaces_off: read_u32(bytes, item + 12)?,
                class_data_off: read_u32(bytes, item + 24)?,
            },
        );
        index += 1;
    }
    Ok(out)
}

/// A file with its tables read.
pub(crate) struct ParsedDex<'a> {
    bytes: &'a [u8],
    strings: Vec<String>,
    types: Vec<String>,
    protos: Vec<String>,
    field_ids: Vec<FieldId>,
    method_ids: Vec<MethodId>,
}

impl<'a> View for ParsedDex<'a> {
    type V = Tables;

    closed spec fn view(&self) -> Tables {
        Tables {
            bytes: self.bytes@,
            strings: texts(self.strings@),
            types: texts(self.types@),
            protos: texts(self.protos@),
            field_ids: self.field_ids@,
            method_ids: self.method_ids@,
        }
    }
}

impl<'a> ParsedDex<'a> {
    fn parse(bytes: &'a [u8]) -> (r: Result<Self, DexIndexError>)
        ensures
            match r {
                Ok(dex) => tables_of(bytes@) == Ok::<Tables, DexIndexErrorView>(dex@)
                    && dex.bytes@ == bytes@ && DEX_HEADER_SIZE <= bytes@.len() <= u32::MAX,
                Err(e) => tables_of(bytes@) == Err::<Tables, DexIndexErrorView>(e@),
            },
    {
        if bytes.len() < DEX_HEADER_SIZE {
            return Err(DexIndexError::Truncated("header"));
        }
        if !(bytes[0] == 0x64 && bytes[1] == 0x65 && bytes[2] == 0x78 && bytes[3] == 0x0a)
            || bytes[7] != 0 {
            return Err(DexIndexError::Invalid("magic"));
        }
        if read_u32(bytes, 0x20)? as usize != bytes.len() {
            return Err(DexIndexError::Invalid("file size"));
        }
        if read_u32(bytes, 0x24)? as usize != DEX_HEADER_SIZE {
            return Err(DexIndexError::Invalid("header size"));
        }
        if read_u32(bytes, 0x28)? != 0x1234_5678 {
            return Err(DexIndexError::Invalid("endian tag"));
        }
        let strings = read_strings(bytes)?;
        let types = read_types(bytes, &strings)?;
        let protos = read_protos(bytes, &types)?;
        let field_ids = read_field_ids(bytes)?;
        let method_ids = read_method_ids(bytes)?;
        Ok(ParsedDex { bytes, strings, types, protos, field_ids, method_ids })
    }

    fn type_at(&self, index: u32) -> (r: Result<&str, DexIndexError>)
        ensures
            checked_str(r) == self@.type_at(index),
    {
        if index as usize >= self.types.len() {
            return Err(DexIndexError::InvalidIndex("type", index));
        }
        Ok(self.types[index as usize].as_str())
    }

    fn string(&self, index: u32) -> (r: Result<&str, DexIndexError>)
        ensures
            checked_str(r) == self@.string(index),
    {
        if index as usize >= self.strings.len() {
            return Err(DexIndexError::InvalidIndex("string", index));
        }
        Ok(self.strings[index as usize].as_str())
    }

    #[verifier::loop_isolation(false)]
    fn read_type_list(&self, offset: u32) -> (r: Result<Vec<String>, DexIndexError>)
        ensures
            checked_texts(r) == self@.type_list(offset),
    {
        let mut out: Vec<String> = Vec::new();
        assert(texts(out@) =~= Seq::empty());
        if offset == 0 {
            return Ok(out);
        }
        let count = read_u32(self.bytes, offset as usize)?;
        let items_offset = match offset.checked_add(4) {
            Some(items_offset) => items_offset,
            None => return Err(DexIndexError::Invalid("type-list offset overflow")),
        };
        checked_table_len(items_offset, count, 2, self.bytes.len())?;
        let mut index: u32 = 0;
        while index < count
            invariant
                index <= count,
                self@.type_list(offset) == self@.type_list_from(
                    offset + 4,
                    count,
                    index as int,
                    texts(out@),
                ),
            decreases count - index,
        {
            let type_index = read_u16(self.bytes, (items_offset + index * 2) as usize);
            let name = String::from_str(self.type_at(type_index as u32)?);
            assert(texts(out@.push(name)) =~= texts(out@).push(name@));
            out.push(name);
            index += 1;
        }
        Ok(out)
    }

    fn field_key(&self, index: u32, owner: &str) -> (r: Result<MemberKey, DexIndexError>)
        ensures
            match r {
                Ok(key) => self@.field_key(index, owner@) == Ok::<MemberName, DexIndexErrorView>(
                    key@,
                ),
                Err(e) => self@.field_key(index, owner@) == Err::<MemberName, DexIndexErrorView>(
                    e@,
                ),
            },
    {
        if index as usize >= self.field_ids.len() {
            return Err(DexIndexError::InvalidIndex("field", index));
        }
        let field = self.field_ids[index as usize];
        if !same_text(self.type_at(field.class_idx as u32)?, owner) {
            return Err(DexIndexError::Invalid("encoded field owner"));
        }
        let name = String::from_str(self.string(field.name_idx)?);
        let descriptor = String::from_str(self.type_at(field.type_idx as u32)?);
        Ok(MemberKey { name, descriptor })
    }

    fn method_key(&self, index: u32, owner: &str) -> (r: Result<MemberKey, DexIndexError>)
        ensures
            match r {
                Ok(key) => self@.method_key(index, owner@) == Ok::<MemberName, DexIndexErrorView>(
                    key@,
                ),
                Err(e) => self@.method_key(index, owner@) == Err::<MemberName, DexIndexErrorView>(
                    e@,
                ),
            },
    {
        if index as usize >= self.method_ids.len() {
            return Err(DexIndexError::InvalidIndex("method", index));
        }
        let method = self.method_ids[index as usize];
        if !same_text(self.type_at(method.class_idx as u32)?, owner) {
            return Err(DexIndexError::Invalid("encoded method owner"));
        }
        if method.proto_idx as usize >= self.protos.len() {
            return Err(DexIndexError::InvalidIndex("proto", method.proto_idx as u32));
        }
        let descriptor = self.protos[method.proto_idx as usize].clone();
        let name = String::from_str(self.string(method.name_idx)?);
        Ok(MemberKey { name, descriptor })
    }

    fn read_index(&self, cursor: &mut usize, index: u32, what: &'static str) -> (r: Result<
        u32,
        DexIndexError,
    >)
        ensures
            match r {
                Ok(v) => self@.next_index(*old(cursor) as int, index, what@) == Ok::<
                    (u32, int),
                    DexIndexErrorView,
                >((v, *final(cursor) as int)),
                Err(e) => self@.next_index(*old(cursor) as int, index, what@) == Err::<
                    (u32, int),
                    DexIndexErrorView,
                >(e@),
            },
    {
        let step = read_uleb128(self.bytes, cursor)?;
        match index.checked_add(step) {
            Some(next) => Ok(next),
            None => Err(DexIndexError::Invalid(what)),
        }
    }

    #[verifier::loop_isolation(false)]
    fn read_encoded_fields(
        &self,
        cursor: &mut usize,
        count: u32,
        owner: &str,
        fields: &mut MemberTable<u32>,
    ) -> (r: Result<(), DexIndexError>)
        ensures
            match r {
                Ok(_) => self@.fields_from(
                    *old(cursor) as int,
                    count as int,
                    0,
                    owner@,
                    old(fields)@,
                ) == Ok::<(int, Map<MemberName, u32>), DexIndexErrorView>(
                    (*final(cursor) as int, final(fields)@),
                ),
                Err(e) => self@.fields_from(
                    *old(cursor) as int,
                    count as int,
                    0,
                    owner@,
                    old(fields)@,
                ) == Err::<(int, Map<MemberName, u32>), DexIndexErrorView>(e@),
            },
    {
        let mut field_index: u32 = 0;
        let mut left = count;
        while left > 0
            invariant
                self@.fields_from(*old(cursor) as int, count as int, 0, owner@, old(fields)@)
                    == self@.fields_from(
                    *cursor as int,
                    left as int,
                    field_index,
                    owner@,
                    fields@,
                ),
            decreases left,
        {
            field_index = self.read_index(cursor, field_index, "field index overflow")?;
            let access_flags = read_uleb128(self.bytes, cursor)?;
            let key = self.field_key(field_index, owner)?;
            if fields.insert(key, access_flags) {
                return Err(DexIndexError::Invalid("duplicate encoded field"));
            }
            left -= 1;
        }
        Ok(())
    }

    #[verifier::loop_isolation(false)]
    fn read_encoded_methods(
        &self,
        cursor: &mut usize,
        count: u32,
        owner: &str,
        methods: &mut MemberTable<DexMethod>,
        is_direct: bool,
    ) -> (r: Result<(), DexIndexError>)
        ensures
            match r {
                Ok(_) => self@.methods_from(
                    *old(cursor) as int,
                    count as int,
                    0,
                    owner@,
                    is_direct,
                    old(methods)@,
                ) == Ok::<(int, Map<MemberName, DexMethod>), DexIndexErrorView>(
                    (*final(cursor) as int, final(methods)@),
                ),
                Err(e) => self@.methods_from(
                    *old(cursor) as int,
                    count as int,
                    0,
                    owner@,
                    is_direct,
                    old(methods)@,
                ) == Err::<(int, Map<MemberName, DexMethod>), DexIndexErrorView>(e@),
            },
    {
        let mut method_index: u32 = 0;
        let mut left = count;
        while left > 0
            invariant
                self@.methods_from(
                    *old(cursor) as int,
                    count as int,
                    0,
                    owner@,
                    is_direct,
                    old(methods)@,
                ) == self@.methods_from(
                    *cursor as int,
                    left as int,
                    method_index,
                    owner@,
                    is_direct,
                    methods@,
                ),
            decreases left,
        {
            method_index = self.read_index(cursor, method_index, "method index overflow")?;
            let access_flags = read_uleb128(self.bytes, cursor)?;
            read_uleb128(self.bytes, cursor)?;
            let key = self.method_key(method_index, owner)?;
            if methods.insert(key, DexMethod { access_flags, is_direct }) {
                return Err(DexIndexError::Invalid("duplicate encoded method"));
            }
            left -= 1;
        }
        Ok(())
    }

    fn read_class_data(&self, class_data_off: u32, owner: &str, class: DexClass) -> (r: Result<
        DexClass,
        DexIndexError,
    >)
        ensures
            match r {
                Ok(full) => self@.with_data(class_data_off, owner@, class@) == Ok::<
                    ClassView,
                    DexIndexErrorView,
                >(full@),
                Err(e) => self@.with_data(class_data_off, owner@, class@) == Err::<
                    ClassView,
                    DexIndexErrorView,
                >(e@),
            },
    {
        let DexClass { access_flags, superclass, interfaces, methods, fields } = class;
        let mut methods = methods;
        let mut fields = fields;
        let mut cursor = class_data_off as usize;
        let static_fields = read_uleb128(self.bytes, &mut cursor)?;
        let instance_fields = read_uleb128(self.bytes, &mut cursor)?;
        let direct_methods = read_uleb128(self.bytes, &mut cursor)?;
        let virtual_methods = read_uleb128(self.bytes, &mut cursor)?;
        self.read_encoded_fields(&mut cursor, static_fields, owner, &mut fields)?;
        self.read_encoded_fields(&mut cursor, instance_fields, owner, &mut fields)?;
        self.read_encoded_methods(&mut cursor, direct_methods, owner, &mut methods, true)?;
        self.read_encoded_methods(&mut cursor, virtual_methods, owner, &mut methods, false)?;
        Ok(DexClass { access_flags, superclass, interfaces, methods, fields })
    }

    fn read_class(&self, def: &ClassDef, known: &ClassTable) -> (r: Result<
        (String, DexClass),
        DexIndexError,
    >)
        ensures
            match r {
                Ok((descriptor, class)) => self@.class_of(*def, known@) == Ok::<
                    (Seq<char>, ClassView),
                    DexIndexErrorView,
                >((descriptor@, class@)),
                Err(e) => self@.class_of(*def, known@) == Err::<
                    (Seq<char>, ClassView),
                    DexIndexErrorView,
                >(e@),
            },
    {
        let descriptor = String::from_str(self.type_at(def.class_idx)?);
        let superclass = if def.superclass_idx == NO_INDEX {
            None
        } else {
            Some(String::from_str(self.type_at(def.superclass_idx)?))
        };
        if known.contains(descriptor.as_str()) {
            return Err(DexIndexError::Invalid("duplicate class definition"));
        }
        let mut class = DexClass::new(def.access_flags, superclass);
        class.interfaces = self.read_type_list(def.interfaces_off)?;
        assert(class@.superclass == optional_text(superclass));
        if def.class_data_off != 0 {
            class = self.read_class_data(def.class_data_off, descriptor.as_str(), class)?;
        }
        Ok((descriptor, class))
    }
}

/// Adds the classes of a file.
#[verifier::loop_isolation(false)]
pub(crate) fn add_dex(classes: &mut ClassTable, bytes: &[u8]) -> (r: Result<(), DexIndexError>)
    ensures
        match r {
            Ok(_) => with_dex(bytes@, old(classes)@) == Ok::<Classes, DexIndexErrorView>(
                final(classes)@,
            ),
            Err(e) => with_dex(bytes@, old(classes)@) == Err::<Classes, DexIndexErrorView>(e@),
        },
{
    let dex = ParsedDex::parse(bytes)?;
    let defs = read_class_defs(bytes)?;
    let mut idx: usize = 0;
    while idx < defs.len()
        invariant
            idx <= defs@.len(),
            with_dex(bytes@, old(classes)@) == dex@.classes_from(
                defs@,
                idx as int,
                classes@,
            ),
        decreases defs@.len() - idx,
    {
        let (descriptor, class) = dex.read_class(&defs[idx], classes)?;
        classes.insert(descriptor, class);
        idx += 1;
    }
    Ok(())
}

} // verus!
