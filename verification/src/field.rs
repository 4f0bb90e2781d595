//! Fields of a class.

use vstd::prelude::*;

use crate::attr::{attrs_view, AttributeInfo, AttributeView};
use crate::util::has_flag;

verus! {

#[derive(Debug)]
pub struct FieldInfo {
    pub access_flags: u16,
    pub name_index: u16,
    pub descriptor_index: u16,
    pub attributes: Vec<AttributeInfo>,
}

/// What a field or a method of a class file stands for: the two have one shape.
pub struct MemberView {
    pub access_flags: u16,
    pub name_index: u16,
    pub descriptor_index: u16,
    pub attributes: Seq<AttributeView>,
}

impl View for FieldInfo {
    type V = MemberView;

    open spec fn view(&self) -> MemberView {
        MemberView {
            access_flags: self.access_flags,
            name_index: self.name_index,
            descriptor_index: self.descriptor_index,
            attributes: attrs_view(self.attributes@),
        }
    }
}

/// The views of a list of fields, one by one.
pub open spec fn fields_view(fields: Seq<FieldInfo>) -> Seq<MemberView> {
    Seq::new(fields.len(), |i: int| fields[i]@)
}

/// The access flags of a field, one predicate for each bit.
pub trait FieldFlags {
    /// The access flags that the predicates test.
    spec fn field_flags(&self) -> u16;

    fn is_public(&self) -> (b: bool)
        ensures
            b == has_flag(self.field_flags(), 0x0001),
    ;

    fn is_private(&self) -> (b: bool)
        ensures
            b == has_flag(self.field_flags(), 0x0002),
    ;

    fn is_protected(&self) -> (b: bool)
        ensures
            b == has_flag(self.field_flags(), 0x0004),
    ;

    fn is_static(&self) -> (b: bool)
        ensures
            b == has_flag(self.field_flags(), 0x0008),
    ;

    fn is_final(&self) -> (b: bool)
        ensures
            b == has_flag(self.field_flags(), 0x0010),
    ;

    fn is_volatile(&self) -> (b: bool)
        ensures
            b == has_flag(self.field_flags(), 0x0040),
    ;

    fn is_transient(&self) -> (b: bool)
        ensures
            b == has_flag(self.field_flags(), 0x0080),
    ;

    fn is_synthetic(&self) -> (b: bool)
        ensures
            b == has_flag(self.field_flags(), 0x1000),
    ;

    fn is_enum(&self) -> (b: bool)
        ensures
            b == has_flag(self.field_flags(), 0x4000),
    ;
}

impl FieldFlags for u16 {
    open spec fn field_flags(&self) -> u16 {
        *self
    }

    fn is_public(&self) -> (b: bool) {
        *self & 0x0001 == 0x0001
    }

    fn is_private(&self) -> (b: bool) {
        *self & 0x0002 == 0x0002
    }

    fn is_protected(&self) -> (b: bool) {
        *self & 0x0004 == 0x0004
    }

    fn is_static(&self) -> (b: bool) {
        *self & 0x0008 == 0x0008
    }

    fn is_final(&self) -> (b: bool) {
        *self & 0x0010 == 0x0010
    }

    fn is_volatile(&self) -> (b: bool) {
        *self & 0x0040 == 0x0040
    }

    fn is_transient(&self) -> (b: bool) {
        *self & 0x0080 == 0x0080
    }

    fn is_synthetic(&self) -> (b: bool) {
        *self & 0x1000 == 0x1000
    }

    fn is_enum(&self) -> (b: bool) {
        *self & 0x4000 == 0x4000
    }
}

} // verus!
