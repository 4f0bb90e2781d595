//! The structural image of one class file.

pub mod format;
pub mod loading;
pub mod prefix;

use vstd::prelude::*;

use crate::attr::{attrs_view, AttributeInfo, AttributeView};
use crate::constant_pool::{
    is_class_entry, pool_view, resolve_utf8, spec_resolve_utf8, ConstantPoolInfo, ConstantView,
};
use crate::error::ClassFormatError;
use crate::field::{fields_view, FieldInfo, MemberView};
use crate::method::{methods_view, MethodInfo};
use crate::util::has_flag;

verus! {

#[derive(Debug)]
pub struct ClassFile {
    pub minor_version: u16,
    pub major_version: u16,
    pub constant_pool: Vec<ConstantPoolInfo>,
    pub access_flags: u16,
    pub this_class: u16,
    pub super_class: u16,
    pub interfaces: Vec<u16>,
    pub fields: Vec<FieldInfo>,
    pub methods: Vec<MethodInfo>,
    pub attributes: Vec<AttributeInfo>,
}

/// What a [`ClassFile`] stands for.
pub struct ClassFileView {
    pub minor_version: u16,
    pub major_version: u16,
    pub constant_pool: Seq<ConstantView>,
    pub access_flags: u16,
    pub this_class: u16,
    pub super_class: u16,
    pub interfaces: Seq<u16>,
    pub fields: Seq<MemberView>,
    pub methods: Seq<MemberView>,
    pub attributes: Seq<AttributeView>,
}

impl ClassFileView {
    /// True when `this_class` names a `Class` entry of the pool, and
    /// `super_class` is 0 or names one.
    pub open spec fn class_indices_valid(self) -> bool {
        &&& is_class_entry(self.constant_pool, self.this_class)
        &&& self.super_class != 0 ==> is_class_entry(self.constant_pool, self.super_class)
    }
}

impl View for ClassFile {
    type V = ClassFileView;

    open spec fn view(&self) -> ClassFileView {
        ClassFileView {
            minor_version: self.minor_version,
            major_version: self.major_version,
            constant_pool: pool_view(self.constant_pool@),
            access_flags: self.access_flags,
            this_class: self.this_class,
            super_class: self.super_class,
            interfaces: self.interfaces@,
            fields: fields_view(self.fields@),
            methods: methods_view(self.methods@),
            attributes: attrs_view(self.attributes@),
        }
    }
}

impl ClassFile {
    /// The text of the `Utf8` entry at `index`.
    pub fn find_name(&self, index: u16) -> (r: Result<String, ClassFormatError>)
        ensures
            match r {
                Ok(s) => spec_resolve_utf8(self@.constant_pool, index) == Ok::<
                    Seq<char>,
                    ClassFormatError,
                >(s@),
                Err(e) => spec_resolve_utf8(self@.constant_pool, index) == Err::<
                    Seq<char>,
                    ClassFormatError,
                >(e),
            },
    {
        let text = resolve_utf8(&self.constant_pool, index)?;
        Ok(text.to_owned())
    }
}

/// The access flags of a class, one predicate for each bit.
pub trait ClassFlags {
    /// The access flags that the predicates test.
    spec fn class_flags(&self) -> u16;

    fn is_public(&self) -> (b: bool)
        ensures
            b == has_flag(self.class_flags(), 0x0001),
    ;

    fn is_final(&self) -> (b: bool)
        ensures
            b == has_flag(self.class_flags(), 0x0010),
    ;

    fn is_super_special(&self) -> (b: bool)
        ensures
            b == has_flag(self.class_flags(), 0x0020),
    ;

    fn is_interface(&self) -> (b: bool)
        ensures
            b == has_flag(self.class_flags(), 0x0200),
    ;

    fn is_abstract(&self) -> (b: bool)
        ensures
            b == has_flag(self.class_flags(), 0x0400),
    ;

    fn is_synthetic(&self) -> (b: bool)
        ensures
            b == has_flag(self.class_flags(), 0x1000),
    ;

    fn is_annotation(&self) -> (b: bool)
        ensures
            b == has_flag(self.class_flags(), 0x2000),
    ;

    fn is_enum(&self) -> (b: bool)
        ensures
            b == has_flag(self.class_flags(), 0x4000),
    ;

    fn is_module(&self) -> (b: bool)
        ensures
            b == has_flag(self.class_flags(), 0x8000),
    ;
}

impl ClassFlags for u16 {
    open spec fn class_flags(&self) -> u16 {
        *self
    }

    fn is_public(&self) -> (b: bool) {
        *self & 0x0001 == 0x0001
    }

    fn is_final(&self) -> (b: bool) {
        *self & 0x0010 == 0x0010
    }

    // Treat superclass methods specially when invoked by the invokespecial instruction
    fn is_super_special(&self) -> (b: bool) {
        *self & 0x0020 == 0x0020
    }

    fn is_interface(&self) -> (b: bool) {
        *self & 0x0200 == 0x0200
    }

    fn is_abstract(&self) -> (b: bool) {
        *self & 0x0400 == 0x0400
    }

    fn is_synthetic(&self) -> (b: bool) {
        *self & 0x1000 == 0x1000
    }

    fn is_annotation(&self) -> (b: bool) {
        *self & 0x2000 == 0x2000
    }

    fn is_enum(&self) -> (b: bool) {
        *self & 0x4000 == 0x4000
    }

    fn is_module(&self) -> (b: bool) {
        *self & 0x8000 == 0x8000
    }
}

impl ClassFlags for ClassFile {
    open spec fn class_flags(&self) -> u16 {
        self.access_flags
    }

    fn is_public(&self) -> (b: bool) {
        ClassFlags::is_public(&self.access_flags)
    }

    fn is_final(&self) -> (b: bool) {
        ClassFlags::is_final(&self.access_flags)
    }

    fn is_super_special(&self) -> (b: bool) {
        ClassFlags::is_super_special(&self.access_flags)
    }

    fn is_interface(&self) -> (b: bool) {
        ClassFlags::is_interface(&self.access_flags)
    }

    fn is_abstract(&self) -> (b: bool) {
        ClassFlags::is_abstract(&self.access_flags)
    }

    fn is_synthetic(&self) -> (b: bool) {
        ClassFlags::is_synthetic(&self.access_flags)
    }

    fn is_annotation(&self) -> (b: bool) {
        ClassFlags::is_annotation(&self.access_flags)
    }

    fn is_enum(&self) -> (b: bool) {
        ClassFlags::is_enum(&self.access_flags)
    }

    fn is_module(&self) -> (b: bool) {
        ClassFlags::is_module(&self.access_flags)
    }
}

} // verus!
