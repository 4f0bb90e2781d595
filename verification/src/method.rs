//! Methods of a class.

use vstd::prelude::*;

use crate::attr::{attrs_view, AttributeInfo};
use crate::field::MemberView;
use crate::util::has_flag;

verus! {

#[derive(Debug)]
pub struct MethodInfo {
    pub access_flags: u16,
    pub name_index: u16,
    pub descriptor_index: u16,
    pub attributes: Vec<AttributeInfo>,
}

impl View for MethodInfo {
    type V = MemberView;

    open spec fn view(&self) -> MemberView {
        MemberView {
            access_flags: self.access_flags,
            name_index: self.name_index,
            descriptor_index: self.descriptor_index,
            attributes: attrs_view(self.attributes@),
        }
    }
}

/// The views of a list of methods, one by one.
pub open spec fn methods_view(methods: Seq<MethodInfo>) -> Seq<MemberView> {
    Seq::new(methods.len(), |i: int| methods[i]@)
}

/// The access flags of a method, one predicate for each bit.
pub trait MethodFlags {
    /// The access flags that the predicates test.
    spec fn method_flags(&self) -> u16;

    fn is_public(&self) -> (b: bool)
        ensures
            b == has_flag(self.method_flags(), 0x0001),
    ;

    fn is_private(&self) -> (b: bool)
        ensures
            b == has_flag(self.method_flags(), 0x0002),
    ;

    fn is_protected(&self) -> (b: bool)
        ensures
            b == has_flag(self.method_flags(), 0x0004),
    ;

    fn is_static(&self) -> (b: bool)
        ensures
            b == has_flag(self.method_flags(), 0x0008),
    ;

    fn is_final(&self) -> (b: bool)
        ensures
            b == has_flag(self.method_flags(), 0x0010),
    ;

    fn is_synchronized(&self) -> (b: bool)
        ensures
            b == has_flag(self.method_flags(), 0x0020),
    ;

    fn is_bridge(&self) -> (b: bool)
        ensures
            b == has_flag(self.method_flags(), 0x0040),
    ;

    fn is_varargs(&self) -> (b: bool)
        ensures
            b == has_flag(self.method_flags(), 0x0080),
    ;

    fn is_native(&self) -> (b: bool)
        ensures
            b == has_flag(self.method_flags(), 0x0100),
    ;

    fn is_abstract(&self) -> (b: bool)
        ensures
            b == has_flag(self.method_flags(), 0x0400),
    ;

    fn is_strict(&self) -> (b: bool)
        ensures
            b == has_flag(self.method_flags(), 0x0800),
    ;

    fn is_synthetic(&self) -> (b: bool)
        ensures
            b == has_flag(self.method_flags(), 0x1000),
    ;
}

impl MethodFlags for u16 {
    open spec fn method_flags(&self) -> u16 {
        *self
    }

    fn is_public(&self) -> (b: bool) {
        *self & 0x0001 == 0x0001
    }

    fn is_private(&self) -> (b: bool) {
        *self & 0x0002 == 0x0002
    }

    fn is_protected(&self) -> (b: bool) {
        *self & 0x0004 == 0x0004
    }

    fn is_static(&self) -> (b: bool) {
        *self & 0x0008 == 0x0008
    }

    fn is_final(&self) -> (b: bool) {
        *self & 0x0010 == 0x0010
    }

    fn is_synchronized(&self) -> (b: bool) {
        *self & 0x0020 == 0x0020
    }

    fn is_bridge(&self) -> (b: bool) {
        *self & 0x0040 == 0x0040
    }

    fn is_varargs(&self) -> (b: bool) {
        *self & 0x0080 == 0x0080
    }

    fn is_native(&self) -> (b: bool) {
        *self & 0x0100 == 0x0100
    }

    fn is_abstract(&self) -> (b: bool) {
        *self & 0x0400 == 0x0400
    }

    fn is_strict(&self) -> (b: bool) {
        *self & 0x0800 == 0x0800
    }

    fn is_synthetic(&self) -> (b: bool) {
        *self & 0x1000 == 0x1000
    }
}

} // verus!
