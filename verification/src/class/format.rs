//! The binary class-file format, as functions from a sequence of bytes and a
//! position to what stands there and where it ends.
//!
//! All numbers are big-endian. Every function returns `UnexpectedEof` when the
//! bytes it needs run past the end of the sequence.

use vstd::prelude::*;
use vstd::utf8::{decode_utf8, valid_utf8};

use crate::attr::{AttributeView, ExceptionTable, LineNumberTableEntry};
use crate::class::ClassFileView;
use crate::constant_pool::{is_class_entry, spec_resolve_utf8, ConstantView};
use crate::error::ClassFormatError;
use crate::field::MemberView;
use crate::util::{be_u16, be_u32, bytes_at, can_read};

verus! {

/// A value read from the bytes and the position after it, or why there is none.
pub type Parsed<T> = Result<(T, int), ClassFormatError>;

/// The four bytes that every class file starts with.
pub const MAGIC: u32 = 0xCAFEBABE;

/// `value`, which takes the `n` bytes at `pos`, if they are there.
pub open spec fn fixed<T>(bytes: Seq<u8>, pos: int, n: int, value: T) -> Parsed<T> {
    if can_read(bytes, pos, n) {
        Ok((value, pos + n))
    } else {
        Err(ClassFormatError::UnexpectedEof)
    }
}

/// `front` followed by what `rest` read.
pub open spec fn prepend<T>(front: Seq<T>, rest: Parsed<Seq<T>>) -> Parsed<Seq<T>> {
    match rest {
        Ok((items, end)) => Ok((front + items, end)),
        Err(e) => Err(e),
    }
}

/// The number of bytes between `pos` and the end of `bytes`.
pub open spec fn remaining(bytes: Seq<u8>, pos: int) -> nat {
    if pos <= bytes.len() {
        (bytes.len() - pos) as nat
    } else {
        0
    }
}

/// The constant-pool entry that starts at `pos` with its tag byte.
pub open spec fn spec_constant(bytes: Seq<u8>, pos: int) -> Parsed<ConstantView> {
    if !can_read(bytes, pos, 1) {
        Err(ClassFormatError::UnexpectedEof)
    } else {
        let tag = bytes[pos];
        let p = pos + 1;
        if tag == 1 {
            if !can_read(bytes, p, 2) {
                Err(ClassFormatError::UnexpectedEof)
            } else {
                let length = be_u16(bytes, p) as int;
                let text = bytes_at(bytes, p + 2, length);
                if !can_read(bytes, p + 2, length) {
                    Err(ClassFormatError::UnexpectedEof)
                } else if !valid_utf8(text) {
                    Err(ClassFormatError::InvalidUtf8)
                } else {
                    Ok((ConstantView::Utf8 { text: decode_utf8(text) }, p + 2 + length))
                }
            }
        } else if tag == 3 {
            fixed(bytes, p, 4, ConstantView::Integer { bytes: be_u32(bytes, p) })
        } else if tag == 4 {
            fixed(bytes, p, 4, ConstantView::Float { bytes: be_u32(bytes, p) })
        } else if tag == 5 {
            fixed(
                bytes,
                p,
                8,
                ConstantView::Long {
                    high_bytes: be_u32(bytes, p),
                    low_bytes: be_u32(bytes, p + 4),
                },
            )
        } else if tag == 6 {
            fixed(
                bytes,
                p,
                8,
                ConstantView::Double {
                    high_bytes: be_u32(bytes, p),
                    low_bytes: be_u32(bytes, p + 4),
                },
            )
        } else if tag == 7 {
            fixed(bytes, p, 2, ConstantView::Class { name_index: be_u16(bytes, p) })
        } else if tag == 8 {
            fixed(bytes, p, 2, ConstantView::String { string_index: be_u16(bytes, p) })
        } else if tag == 9 {
            fixed(
                bytes,
                p,
                4,
                ConstantView::FieldRef {
                    class_index: be_u16(bytes, p),
                    name_and_type_index: be_u16(bytes, p + 2),
                },
            )
        } else if tag == 10 {
            fixed(
                bytes,
                p,
                4,
                ConstantView::MethodRef {
                    class_index: be_u16(bytes, p),
                    name_and_type_index: be_u16(bytes, p + 2),
                },
            )
        } else if tag == 11 {
            fixed(
                bytes,
                p,
                4,
                ConstantView::InterfaceMethodRef {
                    class_index: be_u16(bytes, p),
                    name_and_type_index: be_u16(bytes, p + 2),
                },
            )
        } else if tag == 12 {
            fixed(
                bytes,
                p,
                4,
                ConstantView::NameAndType {
                    name_index: be_u16(bytes, p),
                    descriptor_index: be_u16(bytes, p + 2),
                },
            )
        } else if tag == 15 {
            fixed(
                bytes,
                p,
                3,
                ConstantView::MethodHandle {
                    reference_kind: bytes[p],
                    reference_index: be_u16(bytes, p + 1),
                },
            )
        } else if tag == 16 {
            fixed(bytes, p, 2, ConstantView::MethodType { descriptor_index: be_u16(bytes, p) })
        } else if tag == 17 {
            fixed(
                bytes,
                p,
                4,
                ConstantView::Dynamic {
                    bootstrap_method_attr_index: be_u16(bytes, p),
                    name_and_type_index: be_u16(bytes, p + 2),
                },
            )
        } else if tag == 18 {
            fixed(
                bytes,
                p,
                4,
                ConstantView::InvokeDynamic {
                    bootstrap_method_attr_index: be_u16(bytes, p),
                    name_and_type_index: be_u16(bytes, p + 2),
                },
            )
        } else if tag == 19 {
            fixed(bytes, p, 2, ConstantView::Module { name_index: be_u16(bytes, p) })
        } else if tag == 20 {
            fixed(bytes, p, 2, ConstantView::Package { name_index: be_u16(bytes, p) })
        } else {
            Err(ClassFormatError::UnsupportedConstantTag(tag))
        }
    }
}

/// True for the entries that take two pool indices.
pub open spec fn is_wide(c: ConstantView) -> bool {
    c is Long || c is Double
}

/// The pool slots that one entry fills: itself, and for a wide entry the
/// unusable index after it.
pub open spec fn entry_slots(c: ConstantView) -> Seq<ConstantView> {
    if is_wide(c) {
        seq![c, ConstantView::Unusable]
    } else {
        seq![c]
    }
}

/// The pool entries that start at `pos` and fill `slots` pool indices (one
/// more, where the last entry is wide).
pub open spec fn spec_pool(bytes: Seq<u8>, pos: int, slots: nat) -> Parsed<Seq<ConstantView>>
    decreases slots,
{
    if slots == 0 {
        Ok((Seq::empty(), pos))
    } else {
        match spec_constant(bytes, pos) {
            Err(e) => Err(e),
            Ok((c, next)) => prepend(
                entry_slots(c),
                spec_pool(
                    bytes,
                    next,
                    if is_wide(c) && slots >= 2 {
                        (slots - 2) as nat
                    } else {
                        (slots - 1) as nat
                    },
                ),
            ),
        }
    }
}

/// The number of pool indices that a pool count of `count` asks for: the
/// indices start at 1, and the count is one more than the last of them.
pub open spec fn pool_slots(count: u16) -> nat {
    if count == 0 {
        0
    } else {
        (count - 1) as nat
    }
}

/// Fails with `AttributeLengthMismatch` where a decoder did not end at
/// `expected_end`.
pub open spec fn check_length<T>(r: Parsed<T>, expected_end: int) -> Parsed<T> {
    match r {
        Ok((value, end)) => if end == expected_end {
            Ok((value, end))
        } else {
            Err(ClassFormatError::AttributeLengthMismatch)
        },
        Err(e) => Err(e),
    }
}

/// The exception-table entry in the eight bytes at `pos`.
pub open spec fn exception_at(bytes: Seq<u8>, pos: int) -> ExceptionTable {
    ExceptionTable {
        start_pc: be_u16(bytes, pos),
        end_pc: be_u16(bytes, pos + 2),
        handler_pc: be_u16(bytes, pos + 4),
        catch_type: be_u16(bytes, pos + 6),
    }
}

/// The line-number entry in the four bytes at `pos`.
pub open spec fn line_number_at(bytes: Seq<u8>, pos: int) -> LineNumberTableEntry {
    LineNumberTableEntry { start_pc: be_u16(bytes, pos), line_number: be_u16(bytes, pos + 2) }
}

/// The body of a `ConstantValue` attribute.
pub open spec fn spec_constant_value(bytes: Seq<u8>, pos: int) -> Parsed<AttributeView> {
    fixed(bytes, pos, 2, AttributeView::ConstantValue { constantvalue_index: be_u16(bytes, pos) })
}

/// The body of a `SourceFile` attribute.
pub open spec fn spec_source_file(bytes: Seq<u8>, pos: int) -> Parsed<AttributeView> {
    fixed(bytes, pos, 2, AttributeView::SourceFile { sourcefile_index: be_u16(bytes, pos) })
}

/// The body of a `LineNumberTable` attribute: a count, and so many entries.
pub open spec fn spec_line_number_table(bytes: Seq<u8>, pos: int) -> Parsed<AttributeView> {
    if !can_read(bytes, pos, 2) {
        Err(ClassFormatError::UnexpectedEof)
    } else {
        let count = be_u16(bytes, pos) as int;
        fixed(
            bytes,
            pos + 2,
            4 * count,
            AttributeView::LineNumberTable {
                entries: Seq::new(count as nat, |i: int| line_number_at(bytes, pos + 2 + 4 * i)),
            },
        )
    }
}

/// Where the attribute that starts at `pos` ends, by the length it declares.
pub open spec fn attribute_end(bytes: Seq<u8>, pos: int) -> int {
    pos + 6 + be_u32(bytes, pos + 2)
}

/// The body of an attribute with the name `name`, read at `body` by the
/// decoder of that name, or `None` where the name has no decoder.
pub open spec fn spec_known_body(
    pool: Seq<ConstantView>,
    bytes: Seq<u8>,
    name: Seq<char>,
    body: int,
) -> Option<Parsed<AttributeView>>
    decreases remaining(bytes, body), 1nat,
{
    if name == "Code"@ {
        Some(spec_code(pool, bytes, body))
    } else if name == "LineNumberTable"@ {
        Some(spec_line_number_table(bytes, body))
    } else if name == "SourceFile"@ {
        Some(spec_source_file(bytes, body))
    } else if name == "ConstantValue"@ {
        Some(spec_constant_value(bytes, body))
    } else {
        None
    }
}

/// The attribute that starts at `pos`: the index of its name, the length it
/// declares, and a body that its name selects. A body of a known name has to
/// end where the declared length says. A body of any other name is the
/// declared number of bytes, taken as they are.
pub open spec fn spec_attribute(pool: Seq<ConstantView>, bytes: Seq<u8>, pos: int) -> Parsed<
    AttributeView,
>
    decreases remaining(bytes, pos), 0nat,
{
    if !can_read(bytes, pos, 2) {
        Err(ClassFormatError::UnexpectedEof)
    } else {
        let name_index = be_u16(bytes, pos);
        match spec_resolve_utf8(pool, name_index) {
            Err(e) => Err(e),
            Ok(name) => if !can_read(bytes, pos + 2, 4) {
                Err(ClassFormatError::UnexpectedEof)
            } else {
                let length = be_u32(bytes, pos + 2) as int;
                let body = pos + 6;
                match spec_known_body(pool, bytes, name, body) {
                    Some(decoded) => check_length(decoded, body + length),
                    None => fixed(
                        bytes,
                        body,
                        length,
                        AttributeView::Unknown {
                            attribute_name_index: name_index,
                            info: bytes_at(bytes, body, length),
                        },
                    ),
                }
            },
        }
    }
}

/// The body of a `Code` attribute: the two limits, the bytecode with its
/// length, the exception table with its count, and a list of attributes.
pub open spec fn spec_code(pool: Seq<ConstantView>, bytes: Seq<u8>, pos: int) -> Parsed<
    AttributeView,
>
    decreases remaining(bytes, pos), 0nat,
{
    if !can_read(bytes, pos, 8) {
        Err(ClassFormatError::UnexpectedEof)
    } else {
        let code_length = be_u32(bytes, pos + 4) as int;
        let table = pos + 8 + code_length;
        if !can_read(bytes, pos + 8, code_length) || !can_read(bytes, table, 2) {
            Err(ClassFormatError::UnexpectedEof)
        } else {
            let table_length = be_u16(bytes, table) as int;
            let nested = table + 2 + 8 * table_length;
            if !can_read(bytes, table + 2, 8 * table_length) || !can_read(bytes, nested, 2) {
                Err(ClassFormatError::UnexpectedEof)
            } else {
                match spec_attributes(pool, bytes, nested + 2, be_u16(bytes, nested) as nat) {
                    Err(e) => Err(e),
                    Ok((attributes, end)) => Ok(
                        (
                            AttributeView::Code {
                                max_stack: be_u16(bytes, pos),
                                max_locals: be_u16(bytes, pos + 2),
                                code: bytes_at(bytes, pos + 8, code_length),
                                exception_tables: Seq::new(
                                    table_length as nat,
                                    |i: int| exception_at(bytes, table + 2 + 8 * i),
                                ),
                                attributes,
                            },
                            end,
                        ),
                    ),
                }
            }
        }
    }
}

/// The `count` attributes that start at `pos`, one after the other.
pub open spec fn spec_attributes(
    pool: Seq<ConstantView>,
    bytes: Seq<u8>,
    pos: int,
    count: nat,
) -> Parsed<Seq<AttributeView>>
    decreases remaining(bytes, pos), count + 1,
{
    if count == 0 {
        Ok((Seq::empty(), pos))
    } else {
        match spec_attribute(pool, bytes, pos) {
            Err(e) => Err(e),
            Ok((attribute, _)) => prepend(
                seq![attribute],
                spec_attributes(pool, bytes, attribute_end(bytes, pos), (count - 1) as nat),
            ),
        }
    }
}

/// The field or method that starts at `pos`: flags, the indices of its name
/// and descriptor, a count, and so many attributes.
pub open spec fn spec_member(pool: Seq<ConstantView>, bytes: Seq<u8>, pos: int) -> Parsed<
    MemberView,
> {
    if !can_read(bytes, pos, 8) {
        Err(ClassFormatError::UnexpectedEof)
    } else {
        match spec_attributes(pool, bytes, pos + 8, be_u16(bytes, pos + 6) as nat) {
            Err(e) => Err(e),
            Ok((attributes, end)) => Ok(
                (
                    MemberView {
                        access_flags: be_u16(bytes, pos),
                        name_index: be_u16(bytes, pos + 2),
                        descriptor_index: be_u16(bytes, pos + 4),
                        attributes,
                    },
                    end,
                ),
            ),
        }
    }
}

/// The `count` fields or methods that start at `pos`, one after the other.
pub open spec fn spec_members(
    pool: Seq<ConstantView>,
    bytes: Seq<u8>,
    pos: int,
    count: nat,
) -> Parsed<Seq<MemberView>>
    decreases count,
{
    if count == 0 {
        Ok((Seq::empty(), pos))
    } else {
        match spec_member(pool, bytes, pos) {
            Err(e) => Err(e),
            Ok((member, next)) => prepend(
                seq![member],
                spec_members(pool, bytes, next, (count - 1) as nat),
            ),
        }
    }
}

/// A count at `pos`, and so many fields or methods after it.
pub open spec fn spec_member_list(pool: Seq<ConstantView>, bytes: Seq<u8>, pos: int) -> Parsed<
    Seq<MemberView>,
> {
    if !can_read(bytes, pos, 2) {
        Err(ClassFormatError::UnexpectedEof)
    } else {
        spec_members(pool, bytes, pos + 2, be_u16(bytes, pos) as nat)
    }
}

/// A count at `pos`, and so many attributes after it.
pub open spec fn spec_attribute_list(pool: Seq<ConstantView>, bytes: Seq<u8>, pos: int) -> Parsed<
    Seq<AttributeView>,
> {
    if !can_read(bytes, pos, 2) {
        Err(ClassFormatError::UnexpectedEof)
    } else {
        spec_attributes(pool, bytes, pos + 2, be_u16(bytes, pos) as nat)
    }
}

/// A count at `pos`, and so many pool indices after it.
pub open spec fn spec_interfaces(bytes: Seq<u8>, pos: int) -> Parsed<Seq<u16>> {
    if !can_read(bytes, pos, 2) {
        Err(ClassFormatError::UnexpectedEof)
    } else {
        let count = be_u16(bytes, pos) as int;
        fixed(
            bytes,
            pos + 2,
            2 * count,
            Seq::new(count as nat, |i: int| be_u16(bytes, pos + 2 + 2 * i)),
        )
    }
}

/// What follows the constant pool, which ended at `pos`: the access flags,
/// `this_class`, which has to name a `Class` entry, `super_class`, which has to
/// be 0 or name one, then interfaces, fields, methods and attributes.
pub open spec fn spec_class_body(
    minor_version: u16,
    major_version: u16,
    pool: Seq<ConstantView>,
    bytes: Seq<u8>,
    pos: int,
) -> Parsed<ClassFileView> {
    if !can_read(bytes, pos, 4) {
        Err(ClassFormatError::UnexpectedEof)
    } else if !is_class_entry(pool, be_u16(bytes, pos + 2)) {
        Err(ClassFormatError::InvalidThisOrSuperClass)
    } else if !can_read(bytes, pos + 4, 2) {
        Err(ClassFormatError::UnexpectedEof)
    } else if be_u16(bytes, pos + 4) != 0 && !is_class_entry(pool, be_u16(bytes, pos + 4)) {
        Err(ClassFormatError::InvalidThisOrSuperClass)
    } else {
        match spec_interfaces(bytes, pos + 6) {
            Err(e) => Err(e),
            Ok((interfaces, at_fields)) => match spec_member_list(pool, bytes, at_fields) {
                Err(e) => Err(e),
                Ok((fields, at_methods)) => match spec_member_list(pool, bytes, at_methods) {
                    Err(e) => Err(e),
                    Ok((methods, at_attributes)) => match spec_attribute_list(
                        pool,
                        bytes,
                        at_attributes,
                    ) {
                        Err(e) => Err(e),
                        Ok((attributes, end)) => Ok(
                            (
                                ClassFileView {
                                    minor_version,
                                    major_version,
                                    constant_pool: pool,
                                    access_flags: be_u16(bytes, pos),
                                    this_class: be_u16(bytes, pos + 2),
                                    super_class: be_u16(bytes, pos + 4),
                                    interfaces,
                                    fields,
                                    methods,
                                    attributes,
                                },
                                end,
                            ),
                        ),
                    },
                },
            },
        }
    }
}

/// The class file at the start of `bytes`, and where it ends: the magic
/// number, the two version numbers, the pool count and the pool, and the rest.
/// Bytes after the end are not looked at.
pub open spec fn spec_class_file(bytes: Seq<u8>) -> Parsed<ClassFileView> {
    if !can_read(bytes, 0, 4) {
        Err(ClassFormatError::UnexpectedEof)
    } else if be_u32(bytes, 0) != MAGIC {
        Err(ClassFormatError::InvalidMagic)
    } else if !can_read(bytes, 4, 6) {
        Err(ClassFormatError::UnexpectedEof)
    } else {
        match spec_pool(bytes, 10, pool_slots(be_u16(bytes, 8))) {
            Err(e) => Err(e),
            Ok((pool, pos)) => spec_class_body(
                be_u16(bytes, 4),
                be_u16(bytes, 6),
                pool,
                bytes,
                pos,
            ),
        }
    }
}

/// The class that `bytes` hold, or why they hold none.
pub open spec fn spec_load(bytes: Seq<u8>) -> Result<ClassFileView, ClassFormatError> {
    match spec_class_file(bytes) {
        Ok((class, _)) => Ok(class),
        Err(e) => Err(e),
    }
}

/// A class that loads has a `this_class` that names a `Class` entry, and a
/// `super_class` that is 0 or names one.
pub proof fn lemma_loaded_class_indices(bytes: Seq<u8>)
    ensures
        spec_load(bytes) matches Ok(class) ==> class.class_indices_valid(),
{
}

/// Where the pool is read and `this_class` does not name a `Class` entry,
/// the load fails with `InvalidThisOrSuperClass`.
pub proof fn lemma_invalid_this_class(bytes: Seq<u8>)
    requires
        can_read(bytes, 0, 10),
        be_u32(bytes, 0) == MAGIC,
        spec_pool(bytes, 10, pool_slots(be_u16(bytes, 8))) matches Ok((pool, pos)) && can_read(
            bytes,
            pos,
            4,
        ) && !is_class_entry(pool, be_u16(bytes, pos + 2)),
    ensures
        spec_load(bytes) == Err::<ClassFileView, ClassFormatError>(
            ClassFormatError::InvalidThisOrSuperClass,
        ),
{
}

/// Where the pool is read, `this_class` names a `Class` entry, and
/// `super_class` is neither 0 nor names one, the load fails with
/// `InvalidThisOrSuperClass`.
pub proof fn lemma_invalid_super_class(bytes: Seq<u8>)
    requires
        can_read(bytes, 0, 10),
        be_u32(bytes, 0) == MAGIC,
        spec_pool(bytes, 10, pool_slots(be_u16(bytes, 8))) matches Ok((pool, pos)) && can_read(
            bytes,
            pos,
            6,
        ) && is_class_entry(pool, be_u16(bytes, pos + 2)) && be_u16(bytes, pos + 4) != 0
            && !is_class_entry(pool, be_u16(bytes, pos + 4)),
    ensures
        spec_load(bytes) == Err::<ClassFileView, ClassFormatError>(
            ClassFormatError::InvalidThisOrSuperClass,
        ),
{
}

/// An attribute of a known name, whose decoder reads a body that does not
/// end where the declared length says, is refused with
/// `AttributeLengthMismatch`.
pub proof fn lemma_attribute_length_mismatch(pool: Seq<ConstantView>, bytes: Seq<u8>, pos: int)
    requires
        can_read(bytes, pos, 6),
        spec_resolve_utf8(pool, be_u16(bytes, pos)) matches Ok(name) && spec_known_body(
            pool,
            bytes,
            name,
            pos + 6,
        ) matches Some(Ok((_, end))) && end != attribute_end(bytes, pos),
    ensures
        spec_attribute(pool, bytes, pos) == Err::<(AttributeView, int), ClassFormatError>(
            ClassFormatError::AttributeLengthMismatch,
        ),
{
}

} // verus!
