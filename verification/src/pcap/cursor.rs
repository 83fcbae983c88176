//! A cursor that reads numbers and byte ranges from a byte slice, front to back.
use vstd::prelude::*;

use crate::byteorder::{be_value, le_value, read_be, read_le, lemma_pow256_values};
use crate::pcap::header::{endian_value, Endianness};

verus! {

/// A position in a byte slice, and the byte order in which multi-byte numbers
/// without an explicit order are read.
///
/// A read of `n` bytes moves the position forward by `n` whether or not the
/// bytes were there; only the bytes past the end are then missing.
pub struct Cursor<'a> {
    bytes: &'a [u8],
    pos: usize,
    pub endianness: Option<Endianness>,
}

/// What a parser that reads from `before` and leaves the cursor at `after`
/// promises: `None` exactly where `expected` is `None`; otherwise the value
/// whose view is `expected`'s value, after reading `expected`'s count of bytes, all of
/// which were there.
pub open spec fn parse_outcome<'a, T: View>(
    r: Option<T>,
    expected: Option<(T::V, nat)>,
    before: Cursor<'a>,
    after: Cursor<'a>,
) -> bool {
    &&& after.data() == before.data()
    &&& match expected {
        None => r is None,
        Some((v, n)) => {
            &&& r matches Some(x) && x@ == v
            &&& after.position() == before.position() + n
            &&& after.in_bounds()
        },
    }
}

#[derive(Debug)]
pub enum CursorError {
    EOF,
}

impl<'a> Cursor<'a> {
    /// The bytes that the cursor reads.
    pub closed spec fn data(&self) -> Seq<u8> {
        self.bytes@
    }

    /// How many bytes the cursor has read, or tried to read.
    pub closed spec fn position(&self) -> int {
        self.pos as int
    }

    /// The byte order of reads without an explicit one.
    pub closed spec fn byte_order(&self) -> Option<Endianness> {
        self.endianness
    }

    /// The bytes not yet read.
    pub open spec fn rest(&self) -> Seq<u8> {
        self.data().skip(self.position())
    }

    /// The position lies within the bytes (or right at their end).
    pub open spec fn in_bounds(&self) -> bool {
        0 <= self.position() <= self.data().len()
    }

    /// The `n` bytes that start at the position.
    pub open spec fn next_bytes(&self, n: int) -> Seq<u8> {
        self.data().subrange(self.position(), self.position() + n)
    }

    /// A read of `n` bytes from `before` finds them all there.
    pub open spec fn can_read(&self, n: int) -> bool {
        self.position() + n <= self.data().len()
    }

    /// `self` is `before` after a read of `n` bytes: same bytes and byte order, position moved by `n`.
    pub open spec fn moved_from(&self, before: Cursor<'a>, n: int) -> bool {
        &&& self.data() == before.data()
        &&& self.byte_order() == before.byte_order()
        &&& self.position() == before.position() + n
    }

    /// The bytes of a cursor fit in memory: their number is a `usize`, as is its position.
    pub proof fn lemma_data_len(&self)
        ensures
            self.data().len() <= usize::MAX,
            0 <= self.position() <= usize::MAX,
    {
        assert(self.bytes@.len() == vstd::slice::spec_slice_len(self.bytes));
    }

    pub fn new(bytes: &'a [u8]) -> (c: Self)
        ensures
            c.data() == bytes@,
            c.position() == 0,
            c.byte_order() is None,
    {
        Cursor { bytes, pos: 0, endianness: None }
    }

    pub fn set_endianness(&mut self, endianness: &Endianness)
        ensures
            final(self).data() == old(self).data(),
            final(self).position() == old(self).position(),
            final(self).byte_order() == Some(*endianness),
    {
        match endianness {
            Endianness::Big => self.endianness = Some(Endianness::Big),
            Endianness::Little => self.endianness = Some(Endianness::Little),
        }
    }

    pub fn remaining(&self) -> (r: &'a [u8])
        requires
            self.in_bounds(),
        ensures
            r@ == self.rest(),
    {
        vstd::slice::slice_subrange(self.bytes, self.pos, self.bytes.len())
    }

    pub fn has_remaining(&self) -> (r: bool)
        ensures
            r == (self.position() < self.data().len()),
    {
        self.pos < self.bytes.len()
    }

    fn take(&mut self, n: usize) -> (r: Result<&'a [u8], CursorError>)
        requires
            old(self).position() + n <= usize::MAX,
        ensures
            final(self).moved_from(*old(self), n as int),
            r is Ok <==> old(self).can_read(n as int),
            r matches Ok(s) ==> s@ == old(self).next_bytes(n as int),
    {
        let end = self.pos + n;
        let slice = if end <= self.bytes.len() {
            Ok(vstd::slice::slice_subrange(self.bytes, self.pos, end))
        } else {
            Err(CursorError::EOF)
        };
        self.pos = end;
        slice
    }

    pub fn u8(&mut self) -> (r: Result<u8, CursorError>)
        requires
            old(self).position() + 1 <= usize::MAX,
        ensures
            final(self).moved_from(*old(self), 1),
            r is Ok <==> old(self).can_read(1),
            r matches Ok(v) ==> v == old(self).data()[old(self).position()],
    {
        match self.take(1) {
            Ok(s) => Ok(s[0]),
            Err(e) => Err(e),
        }
    }

    pub fn u16(&mut self) -> (r: Result<u16, CursorError>)
        requires
            old(self).byte_order() is Some,
            old(self).position() + 2 <= usize::MAX,
        ensures
            final(self).moved_from(*old(self), 2),
            r is Ok <==> old(self).can_read(2),
            r matches Ok(v) ==> v == endian_value(old(self).byte_order().unwrap(), old(self).next_bytes(2)),
    {
        match self.endianness {
            Some(Endianness::Big) => self.u16_be(),
            Some(Endianness::Little) => self.u16_le(),
            None => Err(CursorError::EOF),
        }
    }

    pub fn u16_be(&mut self) -> (r: Result<u16, CursorError>)
        requires
            old(self).position() + 2 <= usize::MAX,
        ensures
            final(self).moved_from(*old(self), 2),
            r is Ok <==> old(self).can_read(2),
            r matches Ok(v) ==> v == be_value(old(self).next_bytes(2)),
    {
        match self.take(2) {
            Ok(s) => {
                let v = read_be(s);
                proof { lemma_pow256_values(); }
                Ok(v as u16)
            },
            Err(e) => Err(e),
        }
    }

    fn u16_le(&mut self) -> (r: Result<u16, CursorError>)
        requires
            old(self).position() + 2 <= usize::MAX,
        ensures
            final(self).moved_from(*old(self), 2),
            r is Ok <==> old(self).can_read(2),
            r matches Ok(v) ==> v == le_value(old(self).next_bytes(2)),
    {
        match self.take(2) {
            Ok(s) => {
                let v = read_le(s);
                proof { lemma_pow256_values(); }
                Ok(v as u16)
            },
            Err(e) => Err(e),
        }
    }

    pub fn u32(&mut self) -> (r: Result<u32, CursorError>)
        requires
            old(self).byte_order() is Some,
            old(self).position() + 4 <= usize::MAX,
        ensures
            final(self).moved_from(*old(self), 4),
            r is Ok <==> old(self).can_read(4),
            r matches Ok(v) ==> v == endian_value(old(self).byte_order().unwrap(), old(self).next_bytes(4)),
    {
        match self.endianness {
            Some(Endianness::Big) => self.u32_be(),
            Some(Endianness::Little) => self.u32_le(),
            None => Err(CursorError::EOF),
        }
    }

    pub fn u32_be(&mut self) -> (r: Result<u32, CursorError>)
        requires
            old(self).position() + 4 <= usize::MAX,
        ensures
            final(self).moved_from(*old(self), 4),
            r is Ok <==> old(self).can_read(4),
            r matches Ok(v) ==> v == be_value(old(self).next_bytes(4)),
    {
        match self.take(4) {
            Ok(s) => {
                let v = read_be(s);
                proof { lemma_pow256_values(); }
                Ok(v as u32)
            },
            Err(e) => Err(e),
        }
    }

    fn u32_le(&mut self) -> (r: Result<u32, CursorError>)
        requires
            old(self).position() + 4 <= usize::MAX,
        ensures
            final(self).moved_from(*old(self), 4),
            r is Ok <==> old(self).can_read(4),
            r matches Ok(v) ==> v == le_value(old(self).next_bytes(4)),
    {
        match self.take(4) {
            Ok(s) => {
                let v = read_le(s);
                proof { lemma_pow256_values(); }
                Ok(v as u32)
            },
            Err(e) => Err(e),
        }
    }

    pub fn u64(&mut self) -> (r: Result<u64, CursorError>)
        requires
            old(self).byte_order() is Some,
            old(self).position() + 8 <= usize::MAX,
        ensures
            final(self).moved_from(*old(self), 8),
            r is Ok <==> old(self).can_read(8),
            r matches Ok(v) ==> v == endian_value(old(self).byte_order().unwrap(), old(self).next_bytes(8)),
    {
        match self.endianness {
            Some(Endianness::Big) => self.u64_be(),
            Some(Endianness::Little) => self.u64_le(),
            None => Err(CursorError::EOF),
        }
    }

    pub fn u64_be(&mut self) -> (r: Result<u64, CursorError>)
        requires
            old(self).position() + 8 <= usize::MAX,
        ensures
            final(self).moved_from(*old(self), 8),
            r is Ok <==> old(self).can_read(8),
            r matches Ok(v) ==> v == be_value(old(self).next_bytes(8)),
    {
        match self.take(8) {
            Ok(s) => {
                let v = read_be(s);
                proof { lemma_pow256_values(); }
                Ok(v as u64)
            },
            Err(e) => Err(e),
        }
    }

    fn u64_le(&mut self) -> (r: Result<u64, CursorError>)
        requires
            old(self).position() + 8 <= usize::MAX,
        ensures
            final(self).moved_from(*old(self), 8),
            r is Ok <==> old(self).can_read(8),
            r matches Ok(v) ==> v == le_value(old(self).next_bytes(8)),
    {
        match self.take(8) {
            Ok(s) => {
                let v = read_le(s);
                proof { lemma_pow256_values(); }
                Ok(v as u64)
            },
            Err(e) => Err(e),
        }
    }

    pub fn u128(&mut self) -> (r: Result<u128, CursorError>)
        requires
            old(self).byte_order() is Some,
            old(self).position() + 16 <= usize::MAX,
        ensures
            final(self).moved_from(*old(self), 16),
            r is Ok <==> old(self).can_read(16),
            r matches Ok(v) ==> v == endian_value(old(self).byte_order().unwrap(), old(self).next_bytes(16)),
    {
        match self.endianness {
            Some(Endianness::Big) => self.u128_be(),
            Some(Endianness::Little) => self.u128_le(),
            None => Err(CursorError::EOF),
        }
    }

    pub fn u128_be(&mut self) -> (r: Result<u128, CursorError>)
        requires
            old(self).position() + 16 <= usize::MAX,
        ensures
            final(self).moved_from(*old(self), 16),
            r is Ok <==> old(self).can_read(16),
            r matches Ok(v) ==> v == be_value(old(self).next_bytes(16)),
    {
        match self.take(16) {
            Ok(s) => {
                let v = read_be(s);
                proof { lemma_pow256_values(); }
                Ok(v as u128)
            },
            Err(e) => Err(e),
        }
    }

    fn u128_le(&mut self) -> (r: Result<u128, CursorError>)
        requires
            old(self).position() + 16 <= usize::MAX,
        ensures
            final(self).moved_from(*old(self), 16),
            r is Ok <==> old(self).can_read(16),
            r matches Ok(v) ==> v == le_value(old(self).next_bytes(16)),
    {
        match self.take(16) {
            Ok(s) => {
                let v = read_le(s);
                proof { lemma_pow256_values(); }
                Ok(v as u128)
            },
            Err(e) => Err(e),
        }
    }

    pub fn bytes(&mut self, n: usize) -> (r: Result<&'a [u8], CursorError>)
        requires
            old(self).position() + n <= usize::MAX,
        ensures
            final(self).moved_from(*old(self), n as int),
            r is Ok <==> old(self).can_read(n as int),
            r matches Ok(s) ==> s@ == old(self).next_bytes(n as int),
    {
        self.take(n)
    }
}

} // verus!
