//! The loader: from the bytes of a class file to a [`ClassFile`].

use vstd::prelude::*;

use crate::attr::{
    attrs_view, lemma_attrs_view_push, AttributeInfo, AttributeView, ExceptionTable,
    LineNumberTableEntry,
};
use crate::class::format::{
    attribute_end, entry_slots, exception_at, is_wide, line_number_at, pool_slots, prepend,
    remaining, spec_attribute, spec_attributes, spec_class_body, spec_code, spec_constant,
    spec_interfaces, spec_line_number_table, spec_load, spec_member, spec_member_list,
    spec_members, spec_pool, Parsed, MAGIC,
};
use crate::class::{ClassFile, ClassFileView};
use crate::constant_pool::{entry, pool_view, resolve_utf8, ConstantPoolInfo, ConstantView};
use crate::error::ClassFormatError;
use crate::field::{fields_view, FieldInfo, MemberView};
use crate::method::{methods_view, MethodInfo};
use crate::util::{be_u16, can_read, text_eq, ByteReader};

verus! {

/// Reading `b` after `a`, then the rest, is reading the rest after `a + b`.
proof fn lemma_prepend_twice<T>(a: Seq<T>, b: Seq<T>, rest: Parsed<Seq<T>>)
    ensures
        prepend(a, prepend(b, rest)) == prepend(a + b, rest),
{
    if let Ok((items, end)) = rest {
        assert(a + (b + items) =~= (a + b) + items);
    }
}

/// Nothing before a list, and the list, is the list.
proof fn lemma_prepend_nothing<T>(rest: Parsed<Seq<T>>)
    ensures
        prepend(Seq::<T>::empty(), rest) == rest,
{
    if let Ok((items, end)) = rest {
        assert(Seq::<T>::empty() + items =~= items);
    }
}

/// A list before nothing more is the list.
proof fn lemma_prepend_done<T>(front: Seq<T>, end: int)
    ensures
        prepend(front, Ok((Seq::<T>::empty(), end))) == Ok::<(Seq<T>, int), ClassFormatError>(
            (front, end),
        ),
{
    assert(front + Seq::<T>::empty() =~= front);
}

/// The fields and the attributes of one field or method, as they are read.
struct Member {
    access_flags: u16,
    name_index: u16,
    descriptor_index: u16,
    attributes: Vec<AttributeInfo>,
}

impl View for Member {
    type V = MemberView;

    closed spec fn view(&self) -> MemberView {
        MemberView {
            access_flags: self.access_flags,
            name_index: self.name_index,
            descriptor_index: self.descriptor_index,
            attributes: attrs_view(self.attributes@),
        }
    }
}

/// Loads one class file from the bytes it was made with.
pub struct ClassFileLoader {
    contents: Vec<u8>,
}

impl View for ClassFileLoader {
    type V = Seq<u8>;

    /// The bytes that the loader was made with.
    closed spec fn view(&self) -> Seq<u8> {
        self.contents@
    }
}

impl ClassFileLoader {
    pub fn new(class_file_contents: Vec<u8>) -> (r: ClassFileLoader)
        ensures
            r@ == class_file_contents@,
    {
        ClassFileLoader { contents: class_file_contents }
    }

    /// Loads the class file. The result is that of [`spec_load`] on the bytes:
    /// the class that they hold, or the first error that reading them from the
    /// front meets.
    pub fn load(self) -> (r: Result<ClassFile, ClassFormatError>)
        ensures
            match r {
                Ok(class) => spec_load(self@) == Ok::<ClassFileView, ClassFormatError>(class@),
                Err(e) => spec_load(self@) == Err::<ClassFileView, ClassFormatError>(e),
            },
            r matches Ok(class) ==> class@.class_indices_valid(),
    {
        let ghost bytes = self.contents@;
        let mut reader = ByteReader::new(self.contents);
        let magic = reader.read_u32()?;
        if magic != MAGIC {
            return Err(ClassFormatError::InvalidMagic);
        }
        let minor_version = reader.read_u16()?;
        let major_version = reader.read_u16()?;
        let constant_pool_count = reader.read_u16()?;
        let constant_pool = Self::read_constant_pool(&mut reader, constant_pool_count)?;
        let ghost pool = pool_view(constant_pool@);
        let ghost body = reader.index as int;

        let access_flags = reader.read_u16()?;
        let this_class = reader.read_u16()?;
        match entry(&constant_pool, this_class) {
            Some(ConstantPoolInfo::Class { .. }) => {},
            _ => {
                return Err(ClassFormatError::InvalidThisOrSuperClass);
            },
        }
        // Either zero, or the index of a class in the constant pool.
        let super_class = reader.read_u16()?;
        if super_class != 0 {
            match entry(&constant_pool, super_class) {
                Some(ConstantPoolInfo::Class { .. }) => {},
                _ => {
                    return Err(ClassFormatError::InvalidThisOrSuperClass);
                },
            }
        }
        let interfaces = Self::read_interfaces(&mut reader)?;
        let fields = Self::read_fields(&mut reader, &constant_pool)?;
        let methods = Self::read_methods(&mut reader, &constant_pool)?;
        let attributes_count = reader.read_u16()?;
        let attributes = Self::read_attributes(&mut reader, &constant_pool, attributes_count)?;

        let class = ClassFile {
            minor_version,
            major_version,
            constant_pool,
            access_flags,
            this_class,
            super_class,
            interfaces,
            fields,
            methods,
            attributes,
        };
        assert(spec_class_body(minor_version, major_version, pool, bytes, body) == Ok::<
            (ClassFileView, int),
            ClassFormatError,
        >((class@, reader.index as int)));
        Ok(class)
    }

    /// Reads one constant-pool entry, tag first.
    fn read_constant(reader: &mut ByteReader) -> (r: Result<ConstantPoolInfo, ClassFormatError>)
        ensures
            final(reader).contents == old(reader).contents,
            match r {
                Ok(c) => spec_constant(old(reader).contents@, old(reader).index as int) == Ok::<
                    (ConstantView, int),
                    ClassFormatError,
                >((c@, final(reader).index as int)),
                Err(e) => spec_constant(old(reader).contents@, old(reader).index as int) == Err::<
                    (ConstantView, int),
                    ClassFormatError,
                >(e),
            },
    {
        let tag = reader.read_u8()?;
        match tag {
            1 => {
                let length = reader.read_u16()?;
                let string = reader.read_str(length as usize)?;
                Ok(ConstantPoolInfo::Utf8 { string })
            },
            3 => {
                let bytes = reader.read_u32()?;
                Ok(ConstantPoolInfo::Integer { bytes })
            },
            4 => {
                let bytes = reader.read_u32()?;
                Ok(ConstantPoolInfo::Float { bytes })
            },
            5 => {
                let high_bytes = reader.read_u32()?;
                let low_bytes = reader.read_u32()?;
                Ok(ConstantPoolInfo::Long { high_bytes, low_bytes })
            },
            6 => {
                let high_bytes = reader.read_u32()?;
                let low_bytes = reader.read_u32()?;
                Ok(ConstantPoolInfo::Double { high_bytes, low_bytes })
            },
            7 => {
                let name_index = reader.read_u16()?;
                Ok(ConstantPoolInfo::Class { name_index })
            },
            8 => {
                let string_index = reader.read_u16()?;
                Ok(ConstantPoolInfo::String { string_index })
            },
            9 => {
                let class_index = reader.read_u16()?;
                let name_and_type_index = reader.read_u16()?;
                Ok(ConstantPoolInfo::FieldRef { class_index, name_and_type_index })
            },
            10 => {
                let class_index = reader.read_u16()?;
                let name_and_type_index = reader.read_u16()?;
                Ok(ConstantPoolInfo::MethodRef { class_index, name_and_type_index })
            },
            11 => {
                let class_index = reader.read_u16()?;
                let name_and_type_index = reader.read_u16()?;
                Ok(ConstantPoolInfo::InterfaceMethodRef { class_index, name_and_type_index })
            },
            12 => {
                let name_index = reader.read_u16()?;
                let descriptor_index = reader.read_u16()?;
                Ok(ConstantPoolInfo::NameAndType { name_index, descriptor_index })
            },
            15 => {
                let reference_kind = reader.read_u8()?;
                let reference_index = reader.read_u16()?;
                Ok(ConstantPoolInfo::MethodHandle { reference_kind, reference_index })
            },
            16 => {
                let descriptor_index = reader.read_u16()?;
                Ok(ConstantPoolInfo::MethodType { descriptor_index })
            },
            17 => {
                let bootstrap_method_attr_index = reader.read_u16()?;
                let name_and_type_index = reader.read_u16()?;
                Ok(ConstantPoolInfo::Dynamic { bootstrap_method_attr_index, name_and_type_index })
            },
            18 => {
                let bootstrap_method_attr_index = reader.read_u16()?;
                let name_and_type_index = reader.read_u16()?;
                Ok(
                    ConstantPoolInfo::InvokeDynamic {
                        bootstrap_method_attr_index,
                        name_and_type_index,
                    },
                )
            },
            19 => {
                let name_index = reader.read_u16()?;
                Ok(ConstantPoolInfo::Module { name_index })
            },
            20 => {
                let name_index = reader.read_u16()?;
                Ok(ConstantPoolInfo::Package { name_index })
            },
            _ => Err(ClassFormatError::UnsupportedConstantTag(tag)),
        }
    }

    /// Reads the constant pool that a pool count of `count` announces.
    #[verifier::loop_isolation(false)]
    fn read_constant_pool(reader: &mut ByteReader, count: u16) -> (r: Result<
        Vec<ConstantPoolInfo>,
        ClassFormatError,
    >)
        ensures
            final(reader).contents == old(reader).contents,
            match r {
                Ok(pool) => spec_pool(
                    old(reader).contents@,
                    old(reader).index as int,
                    pool_slots(count),
                ) == Ok::<(Seq<ConstantView>, int), ClassFormatError>(
                    (pool_view(pool@), final(reader).index as int),
                ),
                Err(e) => spec_pool(
                    old(reader).contents@,
                    old(reader).index as int,
                    pool_slots(count),
                ) == Err::<(Seq<ConstantView>, int), ClassFormatError>(e),
            },
    {
        let ghost bytes = reader.contents@;
        let ghost start = reader.index as int;
        // Constant pool index starts at 1
        let mut left: u16 = if count == 0 {
            0
        } else {
            count - 1
        };
        let mut pool: Vec<ConstantPoolInfo> = Vec::new();
        proof {
            lemma_prepend_nothing(spec_pool(bytes, start, left as nat));
            assert(pool_view(pool@) =~= Seq::<ConstantView>::empty());
        }
        while left > 0
            invariant
                reader.contents@ == bytes,
                reader.contents == old(reader).contents,
                spec_pool(bytes, start, pool_slots(count)) == prepend(
                    pool_view(pool@),
                    spec_pool(bytes, reader.index as int, left as nat),
                ),
            decreases left,
        {
            let ghost before = pool_view(pool@);
            let ghost at = reader.index as int;
            let c = Self::read_constant(reader)?;
            let wide = matches!(c, ConstantPoolInfo::Long { .. } | ConstantPoolInfo::Double { .. });
            let ghost view = c@;
            let ghost slots_left = left as nat;
            pool.push(c);
            if wide {
                pool.push(ConstantPoolInfo::Unusable);
                left = if left >= 2 {
                    left - 2
                } else {
                    0
                };
            } else {
                left = left - 1;
            }
            proof {
                assert(is_wide(view) == wide);
                assert(pool_view(pool@) =~= before + entry_slots(view));
                lemma_prepend_twice(
                    before,
                    entry_slots(view),
                    spec_pool(bytes, reader.index as int, left as nat),
                );
                assert(spec_pool(bytes, at, slots_left) == prepend(
                    entry_slots(view),
                    spec_pool(bytes, reader.index as int, left as nat),
                ));
            }
        }
        proof {
            lemma_prepend_done(pool_view(pool@), reader.index as int);
        }
        Ok(pool)
    }

    /// Reads a count and so many interface indices.
    #[verifier::loop_isolation(false)]
    fn read_interfaces(reader: &mut ByteReader) -> (r: Result<Vec<u16>, ClassFormatError>)
        ensures
            final(reader).contents == old(reader).contents,
            match r {
                Ok(list) => spec_interfaces(old(reader).contents@, old(reader).index as int)
                    == Ok::<(Seq<u16>, int), ClassFormatError>(
                    (list@, final(reader).index as int),
                ),
                Err(e) => spec_interfaces(old(reader).contents@, old(reader).index as int) == Err::<
                    (Seq<u16>, int),
                    ClassFormatError,
                >(e),
            },
    {
        let ghost bytes = reader.contents@;
        let ghost start = reader.index as int;
        let count = reader.read_u16()?;
        let mut list: Vec<u16> = Vec::new();
        let mut i: u16 = 0;
        while i < count
            invariant
                i <= count,
                reader.contents@ == bytes,
                reader.contents == old(reader).contents,
                can_read(bytes, start, 2),
                count == be_u16(bytes, start),
                reader.index == start + 2 + 2 * i,
                can_read(bytes, start + 2, 2 * i),
                list@.len() == i,
                forall|k: int| 0 <= k < i ==> list@[k] == be_u16(bytes, start + 2 + 2 * k),
            decreases count - i,
        {
            let index = reader.read_u16()?;
            list.push(index);
            i += 1;
        }
        assert(list@ =~= Seq::new(count as nat, |k: int| be_u16(bytes, start + 2 + 2 * k)));
        Ok(list)
    }

    /// Reads the body of a `LineNumberTable` attribute.
    #[verifier::loop_isolation(false)]
    fn read_line_number_table(reader: &mut ByteReader) -> (r: Result<
        AttributeInfo,
        ClassFormatError,
    >)
        ensures
            final(reader).contents == old(reader).contents,
            match r {
                Ok(a) => spec_line_number_table(old(reader).contents@, old(reader).index as int)
                    == Ok::<(AttributeView, int), ClassFormatError>(
                    (a@, final(reader).index as int),
                ),
                Err(e) => spec_line_number_table(old(reader).contents@, old(reader).index as int)
                    == Err::<(AttributeView, int), ClassFormatError>(e),
            },
    {
        let ghost bytes = reader.contents@;
        let ghost start = reader.index as int;
        let count = reader.read_u16()?;
        let mut entries: Vec<LineNumberTableEntry> = Vec::new();
        let mut i: u16 = 0;
        while i < count
            invariant
                i <= count,
                reader.contents@ == bytes,
                reader.contents == old(reader).contents,
                can_read(bytes, start, 2),
                count == be_u16(bytes, start),
                reader.index == start + 2 + 4 * i,
                can_read(bytes, start + 2, 4 * i),
                entries@.len() == i,
                forall|k: int| 0 <= k < i ==> entries@[k] == line_number_at(bytes, start + 2 + 4 * k),
            decreases count - i,
        {
            let start_pc = reader.read_u16()?;
            let line_number = reader.read_u16()?;
            entries.push(LineNumberTableEntry { start_pc, line_number });
            i += 1;
        }
        assert(entries@ =~= Seq::new(
            count as nat,
            |k: int| line_number_at(bytes, start + 2 + 4 * k),
        ));
        Ok(AttributeInfo::LineNumberTable { entries })
    }

    /// Reads the body of a `Code` attribute.
    #[verifier::loop_isolation(false)]
    fn read_code(reader: &mut ByteReader, pool: &Vec<ConstantPoolInfo>) -> (r: Result<
        AttributeInfo,
        ClassFormatError,
    >)
        ensures
            final(reader).contents == old(reader).contents,
            match r {
                Ok(a) => spec_code(
                    pool_view(pool@),
                    old(reader).contents@,
                    old(reader).index as int,
                ) == Ok::<(AttributeView, int), ClassFormatError>((a@, final(reader).index as int)),
                Err(e) => spec_code(
                    pool_view(pool@),
                    old(reader).contents@,
                    old(reader).index as int,
                ) == Err::<(AttributeView, int), ClassFormatError>(e),
            },
        decreases remaining(old(reader).contents@, old(reader).index as int), 0nat,
    {
        let ghost bytes = reader.contents@;
        let ghost start = reader.index as int;
        let max_stack = reader.read_u16()?;
        let max_locals = reader.read_u16()?;
        let code_length = reader.read_u32()?;
        let code: Vec<u8> = reader.read_vec_u8(code_length as usize)?;
        let ghost table = reader.index as int;
        let exception_table_length = reader.read_u16()?;
        let mut exception_tables: Vec<ExceptionTable> = Vec::new();
        let mut i: u16 = 0;
        while i < exception_table_length
            invariant
                i <= exception_table_length,
                reader.contents@ == bytes,
                reader.contents == old(reader).contents,
                can_read(bytes, table, 2),
                exception_table_length == be_u16(bytes, table),
                reader.index == table + 2 + 8 * i,
                can_read(bytes, table + 2, 8 * i),
                exception_tables@.len() == i,
                forall|k: int|
                    0 <= k < i ==> exception_tables@[k] == exception_at(bytes, table + 2 + 8 * k),
            decreases exception_table_length - i,
        {
            let start_pc = reader.read_u16()?;
            let end_pc = reader.read_u16()?;
            let handler_pc = reader.read_u16()?;
            let catch_type = reader.read_u16()?;
            exception_tables.push(ExceptionTable { start_pc, end_pc, handler_pc, catch_type });
            i += 1;
        }
        assert(exception_tables@ =~= Seq::new(
            exception_table_length as nat,
            |k: int| exception_at(bytes, table + 2 + 8 * k),
        ));
        let code_attributes_count = reader.read_u16()?;
        let code_attributes = Self::read_attributes(reader, pool, code_attributes_count)?;
        Ok(
            AttributeInfo::Code {
                max_stack,
                max_locals,
                code,
                exception_tables,
                attributes: code_attributes,
            },
        )
    }

    /// Reads one attribute: the index of its name, its declared length, and the
    /// body that the name selects.
    fn read_attribute(reader: &mut ByteReader, pool: &Vec<ConstantPoolInfo>) -> (r: Result<
        AttributeInfo,
        ClassFormatError,
    >)
        ensures
            final(reader).contents == old(reader).contents,
            match r {
                Ok(a) => spec_attribute(
                    pool_view(pool@),
                    old(reader).contents@,
                    old(reader).index as int,
                ) == Ok::<(AttributeView, int), ClassFormatError>((a@, final(reader).index as int)),
                Err(e) => spec_attribute(
                    pool_view(pool@),
                    old(reader).contents@,
                    old(reader).index as int,
                ) == Err::<(AttributeView, int), ClassFormatError>(e),
            },
        decreases remaining(old(reader).contents@, old(reader).index as int), 1nat,
    {
        let attribute_name_index = reader.read_u16()?;
        let attribute_name = resolve_utf8(pool, attribute_name_index)?;
        let attribute_length = reader.read_u32()?;
        let body: usize = reader.index;
        let attribute = if text_eq(attribute_name, "Code") {
            Self::read_code(reader, pool)?
        } else if text_eq(attribute_name, "LineNumberTable") {
            Self::read_line_number_table(reader)?
        } else if text_eq(attribute_name, "SourceFile") {
            let sourcefile_index = reader.read_u16()?;
            AttributeInfo::SourceFile { sourcefile_index }
        } else if text_eq(attribute_name, "ConstantValue") {
            let constantvalue_index = reader.read_u16()?;
            AttributeInfo::ConstantValue { constantvalue_index }
        } else {
            let info = reader.read_vec_u8(attribute_length as usize)?;
            return Ok(AttributeInfo::Unknown { attribute_name_index, info });
        };
        // A known decoder has to stop where the declared length says.
        if reader.index < body || reader.index - body != attribute_length as usize {
            return Err(ClassFormatError::AttributeLengthMismatch);
        }
        Ok(attribute)
    }

    /// Reads `attributes_count` attributes, one after the other.
    #[verifier::loop_isolation(false)]
    fn read_attributes(
        reader: &mut ByteReader,
        pool: &Vec<ConstantPoolInfo>,
        attributes_count: u16,
    ) -> (r: Result<Vec<AttributeInfo>, ClassFormatError>)
        ensures
            final(reader).contents == old(reader).contents,
            match r {
                Ok(list) => spec_attributes(
                    pool_view(pool@),
                    old(reader).contents@,
                    old(reader).index as int,
                    attributes_count as nat,
                ) == Ok::<(Seq<AttributeView>, int), ClassFormatError>(
                    (attrs_view(list@), final(reader).index as int),
                ),
                Err(e) => spec_attributes(
                    pool_view(pool@),
                    old(reader).contents@,
                    old(reader).index as int,
                    attributes_count as nat,
                ) == Err::<(Seq<AttributeView>, int), ClassFormatError>(e),
            },
        decreases remaining(old(reader).contents@, old(reader).index as int), attributes_count + 1,
    {
        let ghost bytes = reader.contents@;
        let ghost start = reader.index as int;
        let ghost constants = pool_view(pool@);
        let mut attributes: Vec<AttributeInfo> = Vec::new();
        let mut i: u16 = 0;
        proof {
            lemma_prepend_nothing(spec_attributes(constants, bytes, start, attributes_count as nat));
            assert(attrs_view(attributes@) =~= Seq::<AttributeView>::empty());
        }
        while i < attributes_count
            invariant
                i <= attributes_count,
                reader.contents@ == bytes,
                reader.contents == old(reader).contents,
                constants == pool_view(pool@),
                start == old(reader).index,
                bytes == old(reader).contents@,
                reader.index >= start,
                spec_attributes(constants, bytes, start, attributes_count as nat) == prepend(
                    attrs_view(attributes@),
                    spec_attributes(
                        constants,
                        bytes,
                        reader.index as int,
                        (attributes_count - i) as nat,
                    ),
                ),
            decreases attributes_count - i,
        {
            let ghost before = attributes@;
            let ghost at = reader.index as int;
            let attribute = Self::read_attribute(reader, pool)?;
            let ghost view = attribute@;
            attributes.push(attribute);
            i += 1;
            proof {
                assert(reader.index == attribute_end(bytes, at));
                lemma_attrs_view_push(before, attribute);
                assert(attrs_view(before).push(view) =~= attrs_view(before) + seq![view]);
                lemma_prepend_twice(
                    attrs_view(before),
                    seq![view],
                    spec_attributes(
                        constants,
                        bytes,
                        reader.index as int,
                        (attributes_count - i) as nat,
                    ),
                );
            }
        }
        proof {
            lemma_prepend_done(attrs_view(attributes@), reader.index as int);
        }
        Ok(attributes)
    }

    /// Reads one field or method.
    fn read_member(reader: &mut ByteReader, pool: &Vec<ConstantPoolInfo>) -> (r: Result<
        Member,
        ClassFormatError,
    >)
        ensures
            final(reader).contents == old(reader).contents,
            match r {
                Ok(m) => spec_member(
                    pool_view(pool@),
                    old(reader).contents@,
                    old(reader).index as int,
                ) == Ok::<(MemberView, int), ClassFormatError>((m@, final(reader).index as int)),
                Err(e) => spec_member(
                    pool_view(pool@),
                    old(reader).contents@,
                    old(reader).index as int,
                ) == Err::<(MemberView, int), ClassFormatError>(e),
            },
    {
        let access_flags = reader.read_u16()?;
        let name_index = reader.read_u16()?;
        let descriptor_index = reader.read_u16()?;
        let attributes_count = reader.read_u16()?;
        let attributes = Self::read_attributes(reader, pool, attributes_count)?;
        Ok(Member { access_flags, name_index, descriptor_index, attributes })
    }

    /// Reads a count and so many fields.
    #[verifier::loop_isolation(false)]
    fn read_fields(reader: &mut ByteReader, pool: &Vec<ConstantPoolInfo>) -> (r: Result<
        Vec<FieldInfo>,
        ClassFormatError,
    >)
        ensures
            final(reader).contents == old(reader).contents,
            match r {
                Ok(list) => spec_member_list(
                    pool_view(pool@),
                    old(reader).contents@,
                    old(reader).index as int,
                ) == Ok::<(Seq<MemberView>, int), ClassFormatError>(
                    (fields_view(list@), final(reader).index as int),
                ),
                Err(e) => spec_member_list(
                    pool_view(pool@),
                    old(reader).contents@,
                    old(reader).index as int,
                ) == Err::<(Seq<MemberView>, int), ClassFormatError>(e),
            },
    {
        let ghost bytes = reader.contents@;
        let ghost constants = pool_view(pool@);
        let fields_count = reader.read_u16()?;
        let ghost start = reader.index as int;
        let mut fields: Vec<FieldInfo> = Vec::new();
        let mut i: u16 = 0;
        proof {
            lemma_prepend_nothing(spec_members(constants, bytes, start, fields_count as nat));
            assert(fields_view(fields@) =~= Seq::<MemberView>::empty());
        }
        while i < fields_count
            invariant
                i <= fields_count,
                reader.contents@ == bytes,
                reader.contents == old(reader).contents,
                constants == pool_view(pool@),
                spec_member_list(constants, bytes, old(reader).index as int) == spec_members(
                    constants,
                    bytes,
                    start,
                    fields_count as nat,
                ),
                spec_members(constants, bytes, start, fields_count as nat) == prepend(
                    fields_view(fields@),
                    spec_members(constants, bytes, reader.index as int, (fields_count - i) as nat),
                ),
            decreases fields_count - i,
        {
            let ghost before = fields_view(fields@);
            let member = Self::read_member(reader, pool)?;
            let ghost view = member@;
            fields.push(
                FieldInfo {
                    access_flags: member.access_flags,
                    name_index: member.name_index,
                    descriptor_index: member.descriptor_index,
                    attributes: member.attributes,
                },
            );
            i += 1;
            proof {
                assert(fields_view(fields@) =~= before + seq![view]);
                lemma_prepend_twice(
                    before,
                    seq![view],
                    spec_members(constants, bytes, reader.index as int, (fields_count - i) as nat),
                );
            }
        }
        proof {
            lemma_prepend_done(fields_view(fields@), reader.index as int);
        }
        Ok(fields)
    }

    /// Reads a count and so many methods.
    #[verifier::loop_isolation(false)]
    fn read_methods(reader: &mut ByteReader, pool: &Vec<ConstantPoolInfo>) -> (r: Result<
        Vec<MethodInfo>,
        ClassFormatError,
    >)
        ensures
            final(reader).contents == old(reader).contents,
            match r {
                Ok(list) => spec_member_list(
                    pool_view(pool@),
                    old(reader).contents@,
                    old(reader).index as int,
                ) == Ok::<(Seq<MemberView>, int), ClassFormatError>(
                    (methods_view(list@), final(reader).index as int),
                ),
                Err(e) => spec_member_list(
                    pool_view(pool@),
                    old(reader).contents@,
                    old(reader).index as int,
                ) == Err::<(Seq<MemberView>, int), ClassFormatError>(e),
            },
    {
        let ghost bytes = reader.contents@;
        let ghost constants = pool_view(pool@);
        let methods_count = reader.read_u16()?;
        let ghost start = reader.index as int;
        let mut methods: Vec<MethodInfo> = Vec::new();
        let mut i: u16 = 0;
        proof {
            lemma_prepend_nothing(spec_members(constants, bytes, start, methods_count as nat));
            assert(methods_view(methods@) =~= Seq::<MemberView>::empty());
        }
        while i < methods_count
            invariant
                i <= methods_count,
                reader.contents@ == bytes,
                reader.contents == old(reader).contents,
                constants == pool_view(pool@),
                spec_member_list(constants, bytes, old(reader).index as int) == spec_members(
                    constants,
                    bytes,
                    start,
                    methods_count as nat,
                ),
                spec_members(constants, bytes, start, methods_count as nat) == prepend(
                    methods_view(methods@),
                    spec_members(constants, bytes, reader.index as int, (methods_count - i) as nat),
                ),
            decreases methods_count - i,
        {
            let ghost before = methods_view(methods@);
            let member = Self::read_member(reader, pool)?;
            let ghost view = member@;
            methods.push(
                MethodInfo {
                    access_flags: member.access_flags,
                    name_index: member.name_index,
                    descriptor_index: member.descriptor_index,
                    attributes: member.attributes,
                },
            );
            i += 1;
            proof {
                assert(methods_view(methods@) =~= before + seq![view]);
                lemma_prepend_twice(
                    before,
                    seq![view],
                    spec_members(constants, bytes, reader.index as int, (methods_count - i) as nat),
                );
            }
        }
        proof {
            lemma_prepend_done(methods_view(methods@), reader.index as int);
        }
        Ok(methods)
    }
}

} // verus!
