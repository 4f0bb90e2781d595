//! A sequential big-endian reader over an immutable byte buffer.

use vstd::prelude::*;
use vstd::utf8::{decode_utf8, encode_utf8_decode_utf8, valid_utf8};

use crate::error::ClassFormatError;

verus! {

/// True when all the bits of `mask` are set in `flags`.
pub open spec fn has_flag(flags: u16, mask: u16) -> bool {
    flags & mask == mask
}

/// True when `n` bytes can be read from `bytes` starting at `pos`.
pub open spec fn can_read(bytes: Seq<u8>, pos: int, n: int) -> bool {
    0 <= pos && 0 <= n && pos + n <= bytes.len()
}

/// The big-endian 16-bit number at `pos`.
pub open spec fn be_u16(bytes: Seq<u8>, pos: int) -> u16 {
    (bytes[pos] as int * 0x100 + bytes[pos + 1] as int) as u16
}

/// The big-endian 32-bit number at `pos`.
pub open spec fn be_u32(bytes: Seq<u8>, pos: int) -> u32 {
    (bytes[pos] as int * 0x100_0000 + bytes[pos + 1] as int * 0x1_0000 + bytes[pos + 2] as int
        * 0x100 + bytes[pos + 3] as int) as u32
}

/// The `n` bytes that start at `pos`.
pub open spec fn bytes_at(bytes: Seq<u8>, pos: int, n: int) -> Seq<u8> {
    bytes.subrange(pos, pos + n)
}

proof fn lemma_join_u16(hi: u8, lo: u8)
    ensures
        ((hi as u16) << 8 | (lo as u16)) == hi as int * 0x100 + lo as int,
{
    assert(((hi as u16) << 8 | (lo as u16)) == (hi as u16) * 0x100 + (lo as u16)) by (bit_vector);
}

proof fn lemma_join_u32(b0: u8, b1: u8, b2: u8, b3: u8)
    ensures
        ((b0 as u32) << 24 | (b1 as u32) << 16 | (b2 as u32) << 8 | (b3 as u32)) == b0 as int
            * 0x100_0000 + b1 as int * 0x1_0000 + b2 as int * 0x100 + b3 as int,
{
    assert(((b0 as u32) << 24 | (b1 as u32) << 16 | (b2 as u32) << 8 | (b3 as u32)) == (b0 as u32)
        * 0x100_0000 + (b1 as u32) * 0x1_0000 + (b2 as u32) * 0x100 + (b3 as u32)) by (bit_vector);
}

/// `String::from_utf8` of std: the bytes become a string exactly when they
/// are well-formed UTF-8, and the string then holds the characters that they
/// encode.
#[verifier::external_body]
fn string_from_utf8(bytes: Vec<u8>) -> (r: Option<String>)
    ensures
        r is Some <==> valid_utf8(bytes@),
        r matches Some(s) ==> s@ == decode_utf8(bytes@),
{
    String::from_utf8(bytes).ok()
}

/// True when the two texts hold the same characters.
#[verifier::loop_isolation(false)]
pub fn text_eq(a: &str, b: &str) -> (r: bool)
    ensures
        r == (a@ == b@),
{
    let x = a.as_bytes();
    let y = b.as_bytes();
    proof {
        // A text is determined by its encoding.
        encode_utf8_decode_utf8(a@);
        encode_utf8_decode_utf8(b@);
    }
    if x.len() != y.len() {
        return false;
    }
    let mut i: usize = 0;
    while i < x.len()
        invariant
            i <= x.len(),
            x.len() == y.len(),
            forall|k: int| 0 <= k < i ==> x@[k] == y@[k],
        decreases x.len() - i,
    {
        if x[i] != y[i] {
            return false;
        }
        i += 1;
    }
    assert(x@ =~= y@);
    true
}

/// A reader that goes through `contents` from the front. A read that asks
/// for more bytes than are left fails with `UnexpectedEof` and leaves the
/// reader where it was.
#[derive(Debug)]
pub struct ByteReader {
    /// The position of the next byte to read.
    pub index: usize,
    pub contents: Vec<u8>,
}

impl ByteReader {
    /// True when `n` more bytes can be read.
    pub open spec fn has(&self, n: int) -> bool {
        can_read(self.contents@, self.index as int, n)
    }

    /// The reader after `n` bytes were consumed.
    pub open spec fn advanced(&self, before: &ByteReader, n: int) -> bool {
        self.contents == before.contents && self.index == before.index + n
    }

    pub fn new(contents: Vec<u8>) -> (r: Self)
        ensures
            r.index == 0,
            r.contents == contents,
    {
        ByteReader { index: 0, contents }
    }

    /// Reads one byte.
    pub fn read_u8(&mut self) -> (r: Result<u8, ClassFormatError>)
        ensures
            match r {
                Ok(v) => old(self).has(1) && v == old(self).contents@[old(self).index as int]
                    && final(self).advanced(old(self), 1),
                Err(e) => e == ClassFormatError::UnexpectedEof && !old(self).has(1) && *final(self)
                    == *old(self),
            },
    {
        if self.index >= self.contents.len() {
            return Err(ClassFormatError::UnexpectedEof);
        }
        let result: u8 = self.contents[self.index];
        self.index += 1;
        Ok(result)
    }

    /// Reads a big-endian 16-bit number.
    pub fn read_u16(&mut self) -> (r: Result<u16, ClassFormatError>)
        ensures
            match r {
                Ok(v) => old(self).has(2) && v == be_u16(old(self).contents@, old(self).index as int)
                    && final(self).advanced(old(self), 2),
                Err(e) => e == ClassFormatError::UnexpectedEof && !old(self).has(2) && *final(self)
                    == *old(self),
            },
    {
        let len: usize = self.contents.len();
        if self.index > len || len - self.index < 2 {
            return Err(ClassFormatError::UnexpectedEof);
        }
        let hi: u8 = self.contents[self.index];
        let lo: u8 = self.contents[self.index + 1];
        proof {
            lemma_join_u16(hi, lo);
        }
        let result: u16 = (hi as u16) << 8 | (lo as u16);
        self.index += 2;
        Ok(result)
    }

    /// Reads a big-endian 32-bit number.
    pub fn read_u32(&mut self) -> (r: Result<u32, ClassFormatError>)
        ensures
            match r {
                Ok(v) => old(self).has(4) && v == be_u32(old(self).contents@, old(self).index as int)
                    && final(self).advanced(old(self), 4),
                Err(e) => e == ClassFormatError::UnexpectedEof && !old(self).has(4) && *final(self)
                    == *old(self),
            },
    {
        let len: usize = self.contents.len();
        if self.index > len || len - self.index < 4 {
            return Err(ClassFormatError::UnexpectedEof);
        }
        let b0: u8 = self.contents[self.index];
        let b1: u8 = self.contents[self.index + 1];
        let b2: u8 = self.contents[self.index + 2];
        let b3: u8 = self.contents[self.index + 3];
        proof {
            lemma_join_u32(b0, b1, b2, b3);
        }
        let result: u32 = (b0 as u32) << 24 | (b1 as u32) << 16 | (b2 as u32) << 8 | (b3 as u32);
        self.index += 4;
        Ok(result)
    }

    /// Reads `length` bytes.
    pub fn read_vec_u8(&mut self, length: usize) -> (r: Result<Vec<u8>, ClassFormatError>)
        ensures
            match r {
                Ok(v) => old(self).has(length as int) && v@ == bytes_at(
                    old(self).contents@,
                    old(self).index as int,
                    length as int,
                ) && final(self).advanced(old(self), length as int),
                Err(e) => e == ClassFormatError::UnexpectedEof && !old(self).has(length as int)
                    && *final(self) == *old(self),
            },
    {
        let len: usize = self.contents.len();
        if self.index > len || len - self.index < length {
            return Err(ClassFormatError::UnexpectedEof);
        }
        let start: usize = self.index;
        let mut result: Vec<u8> = Vec::new();
        let mut i: usize = 0;
        while i < length
            invariant
                i <= length,
                start + length <= self.contents.len(),
                result@ == self.contents@.subrange(start as int, start + i),
            decreases length - i,
        {
            result.push(self.contents[start + i]);
            i += 1;
        }
        self.index = start + length;
        Ok(result)
    }

    /// Reads `length` bytes of UTF-8 text.
    pub fn read_str(&mut self, length: usize) -> (r: Result<String, ClassFormatError>)
        ensures
            match r {
                Ok(s) => old(self).has(length as int) && valid_utf8(
                    bytes_at(old(self).contents@, old(self).index as int, length as int),
                ) && s@ == decode_utf8(
                    bytes_at(old(self).contents@, old(self).index as int, length as int),
                ) && final(self).advanced(old(self), length as int),
                Err(e) => *final(self) == *old(self) && if old(self).has(length as int) {
                    e == ClassFormatError::InvalidUtf8 && !valid_utf8(
                        bytes_at(old(self).contents@, old(self).index as int, length as int),
                    )
                } else {
                    e == ClassFormatError::UnexpectedEof
                },
            },
    {
        let start: usize = self.index;
        let bytes: Vec<u8> = self.read_vec_u8(length)?;
        match string_from_utf8(bytes) {
            Some(s) => Ok(s),
            None => {
                self.index = start;
                Err(ClassFormatError::InvalidUtf8)
            },
        }
    }
}

} // verus!
