//! Attributes of classes, fields, methods and code.

use vstd::prelude::*;

verus! {

/// An attribute. The four named kinds are decoded; an attribute of any other
/// name is kept as the bytes it was declared with, and never looked into.
#[derive(Debug)]
pub enum AttributeInfo {
    ConstantValue {
        constantvalue_index: u16,  // Points at constant_pool
    },
    Code {
        max_stack: u16,
        max_locals: u16,
        code: Vec<u8>,
        exception_tables: Vec<ExceptionTable>,
        attributes: Vec<AttributeInfo>,
    },
    LineNumberTable { entries: Vec<LineNumberTableEntry> },
    SourceFile {
        sourcefile_index: u16,  // Points at constant_pool
    },
    Unknown {
        attribute_name_index: u16,  // Points at constant_pool
        info: Vec<u8>,
    },
}

#[derive(Debug, Clone, Copy, PartialEq, Eq, Structural)]
pub struct LineNumberTableEntry {
    pub start_pc: u16,
    pub line_number: u16,
}

#[derive(Debug, Clone, Copy, PartialEq, Eq, Structural)]
pub struct ExceptionTable {
    pub start_pc: u16,
    pub end_pc: u16,
    pub handler_pc: u16,
    pub catch_type: u16,
}

/// What an [`AttributeInfo`] stands for.
pub enum AttributeView {
    ConstantValue { constantvalue_index: u16 },
    Code {
        max_stack: u16,
        max_locals: u16,
        code: Seq<u8>,
        exception_tables: Seq<ExceptionTable>,
        attributes: Seq<AttributeView>,
    },
    LineNumberTable { entries: Seq<LineNumberTableEntry> },
    SourceFile { sourcefile_index: u16 },
    Unknown { attribute_name_index: u16, info: Seq<u8> },
}

impl View for AttributeInfo {
    type V = AttributeView;

    open spec fn view(&self) -> AttributeView
        decreases self,
    {
        match self {
            AttributeInfo::ConstantValue { constantvalue_index } => AttributeView::ConstantValue {
                constantvalue_index: *constantvalue_index,
            },
            AttributeInfo::Code {
                max_stack,
                max_locals,
                code,
                exception_tables,
                attributes,
            } => AttributeView::Code {
                max_stack: *max_stack,
                max_locals: *max_locals,
                code: code@,
                exception_tables: exception_tables@,
                attributes: attrs_view(attributes@),
            },
            AttributeInfo::LineNumberTable { entries } => AttributeView::LineNumberTable {
                entries: entries@,
            },
            AttributeInfo::SourceFile { sourcefile_index } => AttributeView::SourceFile {
                sourcefile_index: *sourcefile_index,
            },
            AttributeInfo::Unknown { attribute_name_index, info } => AttributeView::Unknown {
                attribute_name_index: *attribute_name_index,
                info: info@,
            },
        }
    }
}

/// The views of a list of attributes, one by one.
pub open spec fn attrs_view(attrs: Seq<AttributeInfo>) -> Seq<AttributeView>
    decreases attrs,
{
    if attrs.len() == 0 {
        Seq::empty()
    } else {
        attrs_view(attrs.drop_last()).push(attrs.last().view())
    }
}

/// The view of a list has the list's length, and holds the view of each item
/// at the item's place.
pub proof fn lemma_attrs_view(attrs: Seq<AttributeInfo>)
    ensures
        attrs_view(attrs).len() == attrs.len(),
        forall|i: int| 0 <= i < attrs.len() ==> (#[trigger] attrs_view(attrs)[i]) == attrs[i]@,
    decreases attrs.len(),
{
    if attrs.len() > 0 {
        lemma_attrs_view(attrs.drop_last());
        assert(attrs_view(attrs) == attrs_view(attrs.drop_last()).push(attrs.last().view()));
    } else {
        assert(attrs_view(attrs) == Seq::<AttributeView>::empty());
    }
}

/// The view of a list with one more item is the view of the list with the
/// view of the item after it.
pub proof fn lemma_attrs_view_push(attrs: Seq<AttributeInfo>, a: AttributeInfo)
    ensures
        attrs_view(attrs.push(a)) == attrs_view(attrs).push(a@),
{
    assert(attrs.push(a).drop_last() =~= attrs);
}

} // verus!
