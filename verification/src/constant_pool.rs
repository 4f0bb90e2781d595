//! The constant pool: its entries, and the resolution of symbolic references
//! by following index chains through it.

use vstd::prelude::*;

use crate::error::{ClassFormatError, ConstantKind};

verus! {

/// One entry of a constant pool. Pool indices start at 1: the entry with
/// index `i` is stored at position `i - 1`.
#[derive(Debug)]
pub enum ConstantPoolInfo {
    // tag=9
    FieldRef { class_index: u16, name_and_type_index: u16 },
    // tag=10
    MethodRef { class_index: u16, name_and_type_index: u16 },
    // tag=11
    InterfaceMethodRef { class_index: u16, name_and_type_index: u16 },
    // tag=7
    Class { name_index: u16 },
    // tag=8
    String { string_index: u16 },
    // tag=3
    Integer { bytes: u32 },
    // tag=4
    Float { bytes: u32 },
    // tag=5
    Long { high_bytes: u32, low_bytes: u32 },
    // tag=6
    Double { high_bytes: u32, low_bytes: u32 },
    // tag=12
    NameAndType { name_index: u16, descriptor_index: u16 },
    // tag=1
    Utf8 { string: String },
    // tag=15
    MethodHandle { reference_kind: u8, reference_index: u16 },
    // tag=16
    MethodType { descriptor_index: u16 },
    // tag=17
    Dynamic { bootstrap_method_attr_index: u16, name_and_type_index: u16 },
    // tag=18
    InvokeDynamic { bootstrap_method_attr_index: u16, name_and_type_index: u16 },
    // tag=19
    Module { name_index: u16 },
    // tag=20
    Package { name_index: u16 },
    /// The index after a `Long` or a `Double`, which belongs to that entry
    /// and holds nothing of its own.
    Unusable,
}

/// What a [`ConstantPoolInfo`] stands for: the same entry, with its text as a
/// sequence of characters.
pub enum ConstantView {
    FieldRef { class_index: u16, name_and_type_index: u16 },
    MethodRef { class_index: u16, name_and_type_index: u16 },
    InterfaceMethodRef { class_index: u16, name_and_type_index: u16 },
    Class { name_index: u16 },
    String { string_index: u16 },
    Integer { bytes: u32 },
    Float { bytes: u32 },
    Long { high_bytes: u32, low_bytes: u32 },
    Double { high_bytes: u32, low_bytes: u32 },
    NameAndType { name_index: u16, descriptor_index: u16 },
    Utf8 { text: Seq<char> },
    MethodHandle { reference_kind: u8, reference_index: u16 },
    MethodType { descriptor_index: u16 },
    Dynamic { bootstrap_method_attr_index: u16, name_and_type_index: u16 },
    InvokeDynamic { bootstrap_method_attr_index: u16, name_and_type_index: u16 },
    Module { name_index: u16 },
    Package { name_index: u16 },
    Unusable,
}

impl View for ConstantPoolInfo {
    type V = ConstantView;

    open spec fn view(&self) -> ConstantView {
        match *self {
            ConstantPoolInfo::FieldRef { class_index, name_and_type_index } => ConstantView::FieldRef {
                class_index,
                name_and_type_index,
            },
            ConstantPoolInfo::MethodRef {
                class_index,
                name_and_type_index,
            } => ConstantView::MethodRef { class_index, name_and_type_index },
            ConstantPoolInfo::InterfaceMethodRef {
                class_index,
                name_and_type_index,
            } => ConstantView::InterfaceMethodRef { class_index, name_and_type_index },
            ConstantPoolInfo::Class { name_index } => ConstantView::Class { name_index },
            ConstantPoolInfo::String { string_index } => ConstantView::String { string_index },
            ConstantPoolInfo::Integer { bytes } => ConstantView::Integer { bytes },
            ConstantPoolInfo::Float { bytes } => ConstantView::Float { bytes },
            ConstantPoolInfo::Long { high_bytes, low_bytes } => ConstantView::Long {
                high_bytes,
                low_bytes,
            },
            ConstantPoolInfo::Double { high_bytes, low_bytes } => ConstantView::Double {
                high_bytes,
                low_bytes,
            },
            ConstantPoolInfo::NameAndType {
                name_index,
                descriptor_index,
            } => ConstantView::NameAndType { name_index, descriptor_index },
            ConstantPoolInfo::Utf8 { string } => ConstantView::Utf8 { text: string@ },
            ConstantPoolInfo::MethodHandle {
                reference_kind,
                reference_index,
            } => ConstantView::MethodHandle { reference_kind, reference_index },
            ConstantPoolInfo::MethodType { descriptor_index } => ConstantView::MethodType {
                descriptor_index,
            },
            ConstantPoolInfo::Dynamic {
                bootstrap_method_attr_index,
                name_and_type_index,
            } => ConstantView::Dynamic { bootstrap_method_attr_index, name_and_type_index },
            ConstantPoolInfo::InvokeDynamic {
                bootstrap_method_attr_index,
                name_and_type_index,
            } => ConstantView::InvokeDynamic { bootstrap_method_attr_index, name_and_type_index },
            ConstantPoolInfo::Module { name_index } => ConstantView::Module { name_index },
            ConstantPoolInfo::Package { name_index } => ConstantView::Package { name_index },
            ConstantPoolInfo::Unusable => ConstantView::Unusable,
        }
    }
}

/// The view of a whole pool, entry by entry.
pub open spec fn pool_view(pool: Seq<ConstantPoolInfo>) -> Seq<ConstantView> {
    Seq::new(pool.len(), |i: int| pool[i]@)
}

/// The entry with index `index`, if the pool has one. Index 0 names none.
pub open spec fn entry_at(pool: Seq<ConstantView>, index: u16) -> Option<ConstantView> {
    if 1 <= index <= pool.len() {
        Some(pool[index - 1])
    } else {
        None
    }
}

/// True when `index` names a `Class` entry.
pub open spec fn is_class_entry(pool: Seq<ConstantView>, index: u16) -> bool {
    entry_at(pool, index) matches Some(ConstantView::Class { .. })
}

/// The text of the `Utf8` entry at `index`.
pub open spec fn spec_resolve_utf8(pool: Seq<ConstantView>, index: u16) -> Result<
    Seq<char>,
    ClassFormatError,
> {
    match entry_at(pool, index) {
        Some(ConstantView::Utf8 { text }) => Ok(text),
        _ => Err(
            ClassFormatError::ConstantPoolTypeMismatch { expected: ConstantKind::Utf8, index },
        ),
    }
}

/// The name of the class that the `Class` entry at `index` names.
pub open spec fn spec_resolve_class_name(pool: Seq<ConstantView>, index: u16) -> Result<
    Seq<char>,
    ClassFormatError,
> {
    match entry_at(pool, index) {
        Some(ConstantView::Class { name_index }) => spec_resolve_utf8(pool, name_index),
        _ => Err(
            ClassFormatError::ConstantPoolTypeMismatch { expected: ConstantKind::Class, index },
        ),
    }
}

/// The name and the descriptor of the `NameAndType` entry at `index`.
pub open spec fn spec_resolve_name_and_type(pool: Seq<ConstantView>, index: u16) -> Result<
    (Seq<char>, Seq<char>),
    ClassFormatError,
> {
    match entry_at(pool, index) {
        Some(ConstantView::NameAndType { name_index, descriptor_index }) => match spec_resolve_utf8(
            pool,
            name_index,
        ) {
            Err(e) => Err(e),
            Ok(name) => match spec_resolve_utf8(pool, descriptor_index) {
                Err(e) => Err(e),
                Ok(descriptor) => Ok((name, descriptor)),
            },
        },
        _ => Err(
            ClassFormatError::ConstantPoolTypeMismatch {
                expected: ConstantKind::NameAndType,
                index,
            },
        ),
    }
}

/// The class name, method name and descriptor of the `MethodRef` entry at
/// `index`. The class is resolved first.
pub open spec fn spec_resolve_method_ref(pool: Seq<ConstantView>, index: u16) -> Result<
    (Seq<char>, Seq<char>, Seq<char>),
    ClassFormatError,
> {
    match entry_at(pool, index) {
        Some(
            ConstantView::MethodRef { class_index, name_and_type_index },
        ) => match spec_resolve_class_name(pool, class_index) {
            Err(e) => Err(e),
            Ok(class_name) => match spec_resolve_name_and_type(pool, name_and_type_index) {
                Err(e) => Err(e),
                Ok((name, descriptor)) => Ok((class_name, name, descriptor)),
            },
        },
        _ => Err(
            ClassFormatError::ConstantPoolTypeMismatch { expected: ConstantKind::MethodRef, index },
        ),
    }
}

/// The view of a resolved text, or the error.
pub open spec fn text_view(r: Result<&str, ClassFormatError>) -> Result<
    Seq<char>,
    ClassFormatError,
> {
    match r {
        Ok(s) => Ok(s@),
        Err(e) => Err(e),
    }
}

/// The entry with index `index`, or `None` where the pool has none.
pub fn entry(pool: &Vec<ConstantPoolInfo>, index: u16) -> (r: Option<&ConstantPoolInfo>)
    ensures
        match r {
            Some(c) => entry_at(pool_view(pool@), index) == Some(c@),
            None => entry_at(pool_view(pool@), index) is None,
        },
{
    if index == 0 || index as usize > pool.len() {
        None
    } else {
        Some(&pool[index as usize - 1])
    }
}

/// Resolves `index` to the text of a `Utf8` entry.
pub fn resolve_utf8(pool: &Vec<ConstantPoolInfo>, index: u16) -> (r: Result<
    &str,
    ClassFormatError,
>)
    ensures
        text_view(r) == spec_resolve_utf8(pool_view(pool@), index),
{
    match entry(pool, index) {
        Some(ConstantPoolInfo::Utf8 { string }) => Ok(string.as_str()),
        _ => Err(
            ClassFormatError::ConstantPoolTypeMismatch { expected: ConstantKind::Utf8, index },
        ),
    }
}

/// Resolves `index` to the name of the class that a `Class` entry names.
pub fn resolve_class_name(pool: &Vec<ConstantPoolInfo>, index: u16) -> (r: Result<
    &str,
    ClassFormatError,
>)
    ensures
        text_view(r) == spec_resolve_class_name(pool_view(pool@), index),
{
    match entry(pool, index) {
        Some(ConstantPoolInfo::Class { name_index }) => resolve_utf8(pool, *name_index),
        _ => Err(
            ClassFormatError::ConstantPoolTypeMismatch { expected: ConstantKind::Class, index },
        ),
    }
}

/// Resolves `index` to the name and descriptor of a `NameAndType` entry.
pub fn resolve_name_and_type(pool: &Vec<ConstantPoolInfo>, index: u16) -> (r: Result<
    (&str, &str),
    ClassFormatError,
>)
    ensures
        match r {
            Ok((name, descriptor)) => spec_resolve_name_and_type(pool_view(pool@), index) == Ok::<
                (Seq<char>, Seq<char>),
                ClassFormatError,
            >((name@, descriptor@)),
            Err(e) => spec_resolve_name_and_type(pool_view(pool@), index) == Err::<
                (Seq<char>, Seq<char>),
                ClassFormatError,
            >(e),
        },
{
    match entry(pool, index) {
        Some(ConstantPoolInfo::NameAndType { name_index, descriptor_index }) => {
            let name = resolve_utf8(pool, *name_index)?;
            let descriptor = resolve_utf8(pool, *descriptor_index)?;
            Ok((name, descriptor))
        },
        _ => Err(
            ClassFormatError::ConstantPoolTypeMismatch {
                expected: ConstantKind::NameAndType,
                index,
            },
        ),
    }
}

/// Resolves `index` to the class name, method name and descriptor of a
/// `MethodRef` entry.
pub fn resolve_method_ref(pool: &Vec<ConstantPoolInfo>, index: u16) -> (r: Result<
    (&str, &str, &str),
    ClassFormatError,
>)
    ensures
        match r {
            Ok((class_name, name, descriptor)) => spec_resolve_method_ref(pool_view(pool@), index)
                == Ok::<(Seq<char>, Seq<char>, Seq<char>), ClassFormatError>(
                (class_name@, name@, descriptor@),
            ),
            Err(e) => spec_resolve_method_ref(pool_view(pool@), index) == Err::<
                (Seq<char>, Seq<char>, Seq<char>),
                ClassFormatError,
            >(e),
        },
{
    match entry(pool, index) {
        Some(ConstantPoolInfo::MethodRef { class_index, name_and_type_index }) => {
            let class_name = resolve_class_name(pool, *class_index)?;
            let (name, descriptor) = resolve_name_and_type(pool, *name_and_type_index)?;
            Ok((class_name, name, descriptor))
        },
        _ => Err(
            ClassFormatError::ConstantPoolTypeMismatch { expected: ConstantKind::MethodRef, index },
        ),
    }
}

} // verus!
