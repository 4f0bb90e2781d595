//! What the format makes of the first bytes of a class file alone.
//!
//! Reading goes from the front and never looks back, so a value that stands
//! within the first `k` bytes is read from them as from the whole, and one
//! that ends after them is cut off: reading it runs out of bytes.

use vstd::prelude::*;

use crate::class::format::{
    attribute_end, exception_at, is_wide, line_number_at, pool_slots, remaining, spec_attribute,
    spec_attribute_list, spec_attributes, spec_class_body, spec_class_file, spec_code,
    spec_constant, spec_interfaces, spec_known_body, spec_line_number_table, spec_load,
    spec_member, spec_member_list, spec_members, spec_pool, Parsed,
};
use crate::class::ClassFileView;
use crate::constant_pool::{spec_resolve_utf8, ConstantView};
use crate::error::ClassFormatError;
use crate::util::{be_u16, be_u32, bytes_at, can_read};

verus! {

/// What is read from the first `k` bytes alone, where `whole` is read from
/// all of them: the same, if it ends within the `k` bytes, and else nothing,
/// for want of bytes.
pub open spec fn cut<T>(whole: Parsed<T>, k: int) -> Parsed<T> {
    match whole {
        Ok((_, end)) => if end <= k {
            whole
        } else {
            Err(ClassFormatError::UnexpectedEof)
        },
        Err(e) => Err(e),
    }
}

/// Where `whole` ends, if it was read.
pub open spec fn end_of<T>(whole: Parsed<T>) -> int {
    match whole {
        Ok((_, end)) => end,
        Err(_) => 0,
    }
}

/// The bytes of a prefix are those of the whole.
proof fn lemma_prefix_bytes(bytes: Seq<u8>, k: int, pos: int, n: int)
    requires
        0 <= k <= bytes.len(),
        0 <= pos,
        0 <= n,
        pos + n <= k,
    ensures
        can_read(bytes.take(k), pos, n),
        bytes_at(bytes.take(k), pos, n) == bytes_at(bytes, pos, n),
{
    assert(bytes_at(bytes.take(k), pos, n) =~= bytes_at(bytes, pos, n));
}

proof fn lemma_constant_prefix(bytes: Seq<u8>, k: int, pos: int)
    requires
        0 <= k <= bytes.len(),
        spec_constant(bytes, pos) is Ok,
    ensures
        spec_constant(bytes.take(k), pos) == cut(spec_constant(bytes, pos), k),
        end_of(spec_constant(bytes, pos)) > pos,
        end_of(spec_constant(bytes, pos)) <= bytes.len(),
{
    let short = bytes.take(k);
    if pos + 3 <= k && bytes[pos] == 1 {
        let length = be_u16(bytes, pos + 1) as int;
        if pos + 3 + length <= k {
            lemma_prefix_bytes(bytes, k, pos + 3, length);
        }
    }
}

proof fn lemma_pool_prefix(bytes: Seq<u8>, k: int, pos: int, slots: nat)
    requires
        0 <= k <= bytes.len(),
        pos <= k,
        spec_pool(bytes, pos, slots) is Ok,
    ensures
        spec_pool(bytes.take(k), pos, slots) == cut(spec_pool(bytes, pos, slots), k),
        end_of(spec_pool(bytes, pos, slots)) >= pos,
        end_of(spec_pool(bytes, pos, slots)) <= bytes.len(),
    decreases slots,
{
    if slots > 0 {
        lemma_constant_prefix(bytes, k, pos);
        let (c, next) = spec_constant(bytes, pos)->Ok_0;
        let left = if is_wide(c) && slots >= 2 {
            (slots - 2) as nat
        } else {
            (slots - 1) as nat
        };
        lemma_pool_prefix(bytes, if next <= k {
            k
        } else {
            bytes.len() as int
        }, next, left);
    }
}

proof fn lemma_line_number_table_prefix(bytes: Seq<u8>, k: int, pos: int)
    requires
        0 <= k <= bytes.len(),
        spec_line_number_table(bytes, pos) is Ok,
    ensures
        spec_line_number_table(bytes.take(k), pos) == cut(spec_line_number_table(bytes, pos), k),
        end_of(spec_line_number_table(bytes, pos)) > pos,
        end_of(spec_line_number_table(bytes, pos)) <= bytes.len(),
{
    let short = bytes.take(k);
    let count = be_u16(bytes, pos) as int;
    if pos + 2 + 4 * count <= k {
        assert(Seq::new(count as nat, |i: int| line_number_at(short, pos + 2 + 4 * i)) =~= Seq::new(
            count as nat,
            |i: int| line_number_at(bytes, pos + 2 + 4 * i),
        ));
    }
}

proof fn lemma_interfaces_prefix(bytes: Seq<u8>, k: int, pos: int)
    requires
        0 <= k <= bytes.len(),
        spec_interfaces(bytes, pos) is Ok,
    ensures
        spec_interfaces(bytes.take(k), pos) == cut(spec_interfaces(bytes, pos), k),
        end_of(spec_interfaces(bytes, pos)) > pos,
        end_of(spec_interfaces(bytes, pos)) <= bytes.len(),
{
    let short = bytes.take(k);
    let count = be_u16(bytes, pos) as int;
    if pos + 2 + 2 * count <= k {
        assert(Seq::new(count as nat, |i: int| be_u16(short, pos + 2 + 2 * i)) =~= Seq::new(
            count as nat,
            |i: int| be_u16(bytes, pos + 2 + 2 * i),
        ));
    }
}

proof fn lemma_known_body_prefix(
    pool: Seq<ConstantView>,
    bytes: Seq<u8>,
    k: int,
    name: Seq<char>,
    body: int,
)
    requires
        0 <= k <= bytes.len(),
        spec_known_body(pool, bytes, name, body) matches Some(decoded) && decoded is Ok,
    ensures
        spec_known_body(pool, bytes.take(k), name, body) == Some(
            cut(spec_known_body(pool, bytes, name, body)->Some_0, k),
        ),
        end_of(spec_known_body(pool, bytes, name, body)->Some_0) > body,
        end_of(spec_known_body(pool, bytes, name, body)->Some_0) <= bytes.len(),
    decreases remaining(bytes, body), 1nat,
{
    if name == "Code"@ {
        lemma_code_prefix(pool, bytes, k, body);
    } else if name == "LineNumberTable"@ {
        lemma_line_number_table_prefix(bytes, k, body);
    }
}

proof fn lemma_attribute_prefix(pool: Seq<ConstantView>, bytes: Seq<u8>, k: int, pos: int)
    requires
        0 <= k <= bytes.len(),
        spec_attribute(pool, bytes, pos) is Ok,
    ensures
        spec_attribute(pool, bytes.take(k), pos) == cut(spec_attribute(pool, bytes, pos), k),
        end_of(spec_attribute(pool, bytes, pos)) == attribute_end(bytes, pos),
        pos < attribute_end(bytes, pos) <= bytes.len(),
        pos + 6 <= k ==> attribute_end(bytes.take(k), pos) == attribute_end(bytes, pos),
        0 <= pos,
    decreases remaining(bytes, pos), 0nat,
{
    let short = bytes.take(k);
    let name = spec_resolve_utf8(pool, be_u16(bytes, pos))->Ok_0;
    let length = be_u32(bytes, pos + 2) as int;
    match spec_known_body(pool, bytes, name, pos + 6) {
        Some(decoded) => {
            lemma_known_body_prefix(pool, bytes, if pos + 6 <= k {
                k
            } else {
                bytes.len() as int
            }, name, pos + 6);
        },
        None => {
            if pos + 6 + length <= k {
                lemma_prefix_bytes(bytes, k, pos + 6, length);
            }
        },
    }
}

proof fn lemma_code_prefix(pool: Seq<ConstantView>, bytes: Seq<u8>, k: int, pos: int)
    requires
        0 <= k <= bytes.len(),
        spec_code(pool, bytes, pos) is Ok,
    ensures
        spec_code(pool, bytes.take(k), pos) == cut(spec_code(pool, bytes, pos), k),
        end_of(spec_code(pool, bytes, pos)) > pos,
        end_of(spec_code(pool, bytes, pos)) <= bytes.len(),
    decreases remaining(bytes, pos), 0nat,
{
    let short = bytes.take(k);
    let code_length = be_u32(bytes, pos + 4) as int;
    let table = pos + 8 + code_length;
    let table_length = be_u16(bytes, table) as int;
    let nested = table + 2 + 8 * table_length;
    let count = be_u16(bytes, nested) as nat;
    lemma_attributes_prefix(pool, bytes, if nested + 2 <= k {
        k
    } else {
        bytes.len() as int
    }, nested + 2, count);
    if nested + 2 <= k {
        lemma_prefix_bytes(bytes, k, pos + 8, code_length);
        assert(Seq::new(table_length as nat, |i: int| exception_at(short, table + 2 + 8 * i))
            =~= Seq::new(table_length as nat, |i: int| exception_at(bytes, table + 2 + 8 * i)));
    }
}

proof fn lemma_attributes_prefix(
    pool: Seq<ConstantView>,
    bytes: Seq<u8>,
    k: int,
    pos: int,
    count: nat,
)
    requires
        0 <= k <= bytes.len(),
        pos <= k,
        spec_attributes(pool, bytes, pos, count) is Ok,
    ensures
        spec_attributes(pool, bytes.take(k), pos, count) == cut(
            spec_attributes(pool, bytes, pos, count),
            k,
        ),
        end_of(spec_attributes(pool, bytes, pos, count)) >= pos,
        end_of(spec_attributes(pool, bytes, pos, count)) <= bytes.len(),
    decreases remaining(bytes, pos), count + 1,
{
    if count > 0 {
        lemma_attribute_prefix(pool, bytes, k, pos);
        let next = attribute_end(bytes, pos);
        lemma_attributes_prefix(pool, bytes, if next <= k {
            k
        } else {
            bytes.len() as int
        }, next, (count - 1) as nat);
    }
}

proof fn lemma_member_prefix(pool: Seq<ConstantView>, bytes: Seq<u8>, k: int, pos: int)
    requires
        0 <= k <= bytes.len(),
        spec_member(pool, bytes, pos) is Ok,
    ensures
        spec_member(pool, bytes.take(k), pos) == cut(spec_member(pool, bytes, pos), k),
        end_of(spec_member(pool, bytes, pos)) > pos,
        end_of(spec_member(pool, bytes, pos)) <= bytes.len(),
{
    let count = be_u16(bytes, pos + 6) as nat;
    lemma_attributes_prefix(pool, bytes, if pos + 8 <= k {
        k
    } else {
        bytes.len() as int
    }, pos + 8, count);
}

proof fn lemma_members_prefix(
    pool: Seq<ConstantView>,
    bytes: Seq<u8>,
    k: int,
    pos: int,
    count: nat,
)
    requires
        0 <= k <= bytes.len(),
        pos <= k,
        spec_members(pool, bytes, pos, count) is Ok,
    ensures
        spec_members(pool, bytes.take(k), pos, count) == cut(
            spec_members(pool, bytes, pos, count),
            k,
        ),
        end_of(spec_members(pool, bytes, pos, count)) >= pos,
        end_of(spec_members(pool, bytes, pos, count)) <= bytes.len(),
    decreases count,
{
    if count > 0 {
        lemma_member_prefix(pool, bytes, k, pos);
        let next = end_of(spec_member(pool, bytes, pos));
        lemma_members_prefix(pool, bytes, if next <= k {
            k
        } else {
            bytes.len() as int
        }, next, (count - 1) as nat);
    }
}

proof fn lemma_member_list_prefix(pool: Seq<ConstantView>, bytes: Seq<u8>, k: int, pos: int)
    requires
        0 <= k <= bytes.len(),
        spec_member_list(pool, bytes, pos) is Ok,
    ensures
        spec_member_list(pool, bytes.take(k), pos) == cut(spec_member_list(pool, bytes, pos), k),
        end_of(spec_member_list(pool, bytes, pos)) > pos,
        end_of(spec_member_list(pool, bytes, pos)) <= bytes.len(),
{
    lemma_members_prefix(pool, bytes, if pos + 2 <= k {
        k
    } else {
        bytes.len() as int
    }, pos + 2, be_u16(bytes, pos) as nat);
}

proof fn lemma_attribute_list_prefix(pool: Seq<ConstantView>, bytes: Seq<u8>, k: int, pos: int)
    requires
        0 <= k <= bytes.len(),
        spec_attribute_list(pool, bytes, pos) is Ok,
    ensures
        spec_attribute_list(pool, bytes.take(k), pos) == cut(
            spec_attribute_list(pool, bytes, pos),
            k,
        ),
        end_of(spec_attribute_list(pool, bytes, pos)) > pos,
        end_of(spec_attribute_list(pool, bytes, pos)) <= bytes.len(),
{
    lemma_attributes_prefix(pool, bytes, if pos + 2 <= k {
        k
    } else {
        bytes.len() as int
    }, pos + 2, be_u16(bytes, pos) as nat);
}

proof fn lemma_class_body_prefix(
    minor_version: u16,
    major_version: u16,
    pool: Seq<ConstantView>,
    bytes: Seq<u8>,
    k: int,
    pos: int,
)
    requires
        0 <= k <= bytes.len(),
        spec_class_body(minor_version, major_version, pool, bytes, pos) is Ok,
    ensures
        spec_class_body(minor_version, major_version, pool, bytes.take(k), pos) == cut(
            spec_class_body(minor_version, major_version, pool, bytes, pos),
            k,
        ),
        end_of(spec_class_body(minor_version, major_version, pool, bytes, pos)) > pos,
        end_of(spec_class_body(minor_version, major_version, pool, bytes, pos)) <= bytes.len(),
{
    lemma_interfaces_prefix(bytes, k, pos + 6);
    let fields = end_of(spec_interfaces(bytes, pos + 6));
    lemma_member_list_prefix(pool, bytes, k, fields);
    let methods = end_of(spec_member_list(pool, bytes, fields));
    lemma_member_list_prefix(pool, bytes, k, methods);
    let attributes = end_of(spec_member_list(pool, bytes, methods));
    lemma_attribute_list_prefix(pool, bytes, k, attributes);
}

/// What the first `k` bytes of a class file hold: the class file, where
/// it ends within them, and else nothing, for want of bytes.
pub proof fn lemma_class_file_prefix(bytes: Seq<u8>, k: int)
    requires
        0 <= k <= bytes.len(),
        spec_class_file(bytes) is Ok,
    ensures
        spec_class_file(bytes.take(k)) == cut(spec_class_file(bytes), k),
        10 < end_of(spec_class_file(bytes)) <= bytes.len(),
{
    let slots = pool_slots(be_u16(bytes, 8));
    lemma_pool_prefix(bytes, if 10 <= k {
        k
    } else {
        bytes.len() as int
    }, 10, slots);
    let (pool, pos) = spec_pool(bytes, 10, slots)->Ok_0;
    lemma_class_body_prefix(be_u16(bytes, 4), be_u16(bytes, 6), pool, bytes, k, pos);
}

/// A class file that is cut off anywhere before its end does not load: the
/// load fails with `UnexpectedEof`.
pub proof fn lemma_truncated_load(bytes: Seq<u8>, k: int)
    requires
        spec_class_file(bytes) matches Ok((_, end)) && 0 <= k < end,
    ensures
        spec_load(bytes.take(k)) == Err::<ClassFileView, ClassFormatError>(
            ClassFormatError::UnexpectedEof,
        ),
{
    lemma_class_file_prefix(bytes, bytes.len() as int);
    lemma_class_file_prefix(bytes, k);
}

/// The bytes after the end of a class file do not matter to the load.
pub proof fn lemma_load_ignores_rest(bytes: Seq<u8>, k: int)
    requires
        spec_class_file(bytes) matches Ok((_, end)) && end <= k <= bytes.len(),
    ensures
        spec_load(bytes.take(k)) == spec_load(bytes),
{
    lemma_class_file_prefix(bytes, bytes.len() as int);
    lemma_class_file_prefix(bytes, k);
}

} // verus!
