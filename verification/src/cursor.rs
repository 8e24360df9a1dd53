//! A positioned reader over an owned byte buffer.
//!
//! Every multi-byte read is little-endian and advances the position by the
//! width that was read. A read that would pass the end of the buffer fails
//! and leaves the position where it was.

use byteorder::ByteOrder;
use vstd::prelude::*;
use vstd::slice::{slice_subrange, slice_to_vec};

verus! {

/// The one way a read can fail: fewer bytes are left than were asked for.
#[derive(Clone, Copy, Debug, PartialEq, Eq, Structural)]
pub enum CursorError {
    UnexpectedEnd,
}

/// The value of two bytes at `at`, least significant first.
pub open spec fn spec_le16(bytes: Seq<u8>, at: int) -> int {
    bytes[at] as int + 0x100 * (bytes[at + 1] as int)
}

/// The value of four bytes at `at`, least significant first.
pub open spec fn spec_le32(bytes: Seq<u8>, at: int) -> int {
    spec_le16(bytes, at) + 0x1_0000 * spec_le16(bytes, at + 2)
}

/// The value of eight bytes at `at`, least significant first.
pub open spec fn spec_le64(bytes: Seq<u8>, at: int) -> int {
    spec_le32(bytes, at) + 0x1_0000_0000 * spec_le32(bytes, at + 4)
}

/// Whether `width` bytes can be read at position `at` of a buffer of `len` bytes.
pub open spec fn spec_in_bounds(len: int, at: int, width: int) -> bool {
    0 <= at && at + width <= len
}

/// `byteorder::LittleEndian::read_u16`: the first two bytes of `buf` as a
/// little-endian integer. The outside function panics on a shorter buffer,
/// which the precondition leaves out.
#[verifier::external_body]
fn le_read_u16(buf: &[u8]) -> (r: u16)
    requires
        buf@.len() >= 2,
    ensures
        r as int == spec_le16(buf@, 0),
{
    byteorder::LittleEndian::read_u16(buf)
}

/// `byteorder::LittleEndian::read_u32`: the first four bytes of `buf` as a
/// little-endian integer. The outside function panics on a shorter buffer,
/// which the precondition leaves out.
#[verifier::external_body]
fn le_read_u32(buf: &[u8]) -> (r: u32)
    requires
        buf@.len() >= 4,
    ensures
        r as int == spec_le32(buf@, 0),
{
    byteorder::LittleEndian::read_u32(buf)
}

/// `byteorder::LittleEndian::read_u64`: the first eight bytes of `buf` as a
/// little-endian integer. The outside function panics on a shorter buffer,
/// which the precondition leaves out.
#[verifier::external_body]
fn le_read_u64(buf: &[u8]) -> (r: u64)
    requires
        buf@.len() >= 8,
    ensures
        r as int == spec_le64(buf@, 0),
{
    byteorder::LittleEndian::read_u64(buf)
}

/// A byte buffer together with a read position.
///
/// The position may stand anywhere, also past the end of the buffer: only a
/// read looks at the bytes.
pub struct Cursor {
    /// The buffer.
    pub data: Vec<u8>,
    /// The read position.
    pub pos: u64,
}

impl Cursor {
    /// The bytes of the buffer.
    pub open spec fn bytes(&self) -> Seq<u8> {
        self.data@
    }

    /// The current read position.
    pub open spec fn offset(&self) -> int {
        self.pos as int
    }

    /// Whether `width` bytes are left at the current position.
    pub open spec fn can_read(&self, width: int) -> bool {
        spec_in_bounds(self.bytes().len() as int, self.offset(), width)
    }

    /// A cursor at position zero of `data`.
    pub fn new(data: Vec<u8>) -> (c: Cursor)
        ensures
            c.bytes() == data@,
            c.offset() == 0,
    {
        Cursor { data, pos: 0 }
    }

    /// The current read position.
    pub fn position(&self) -> (p: u64)
        ensures
            p as int == self.offset(),
    {
        self.pos
    }

    /// The number of bytes in the buffer.
    pub fn len(&self) -> (n: usize)
        ensures
            n as nat == self.bytes().len(),
    {
        self.data.len()
    }

    /// Moves the read position to `position`, which may be past the end.
    pub fn seek(&mut self, position: u64)
        ensures
            final(self).bytes() == old(self).bytes(),
            final(self).offset() == position as int,
    {
        self.pos = position;
    }

    /// The `width` bytes at the current position, if that many are left.
    fn window(&self, width: usize) -> (w: Option<&[u8]>)
        ensures
            w.is_some() <==> self.can_read(width as int),
            w.is_some() ==> w.unwrap()@ == self.bytes().subrange(
                self.offset(),
                self.offset() + width,
            ),
            w.is_some() ==> self.offset() + width <= usize::MAX,
    {
        let n: usize = self.data.len();
        if self.pos > n as u64 || n - (self.pos as usize) < width {
            return None;
        }
        let start: usize = self.pos as usize;
        Some(slice_subrange(self.data.as_slice(), start, start + width))
    }

    /// Reads `count` bytes and advances by as many.
    pub fn read_exact(&mut self, count: usize) -> (r: Result<Vec<u8>, CursorError>)
        ensures
            final(self).bytes() == old(self).bytes(),
            r.is_ok() <==> old(self).can_read(count as int),
            r.is_ok() ==> r.unwrap()@ == old(self).bytes().subrange(
                old(self).offset(),
                old(self).offset() + count,
            ) && final(self).offset() == old(self).offset() + count,
            r.is_err() ==> final(self).offset() == old(self).offset(),
    {
        let v: Vec<u8> = match self.window(count) {
            Some(w) => slice_to_vec(w),
            None => { return Err(CursorError::UnexpectedEnd); },
        };
        self.pos = self.pos + count as u64;
        Ok(v)
    }

    /// Reads one byte and advances by one.
    pub fn read_u8(&mut self) -> (r: Result<u8, CursorError>)
        ensures
            final(self).bytes() == old(self).bytes(),
            r.is_ok() <==> old(self).can_read(1),
            r.is_ok() ==> r.unwrap() == old(self).bytes()[old(self).offset()]
                && final(self).offset() == old(self).offset() + 1,
            r.is_err() ==> final(self).offset() == old(self).offset(),
    {
        let n: usize = self.data.len();
        if self.pos >= n as u64 {
            return Err(CursorError::UnexpectedEnd);
        }
        let b: u8 = self.data[self.pos as usize];
        self.pos = self.pos + 1;
        Ok(b)
    }

    /// Reads a little-endian 16-bit integer and advances by two.
    pub fn read_u16(&mut self) -> (r: Result<u16, CursorError>)
        ensures
            final(self).bytes() == old(self).bytes(),
            r.is_ok() <==> old(self).can_read(2),
            r.is_ok() ==> r.unwrap() as int == spec_le16(old(self).bytes(), old(self).offset())
                && final(self).offset() == old(self).offset() + 2,
            r.is_err() ==> final(self).offset() == old(self).offset(),
    {
        let v: u16 = match self.window(2) {
            Some(w) => le_read_u16(w),
            None => { return Err(CursorError::UnexpectedEnd); },
        };
        self.pos = self.pos + 2;
        Ok(v)
    }

    /// Reads a little-endian 32-bit integer and advances by four.
    pub fn read_u32(&mut self) -> (r: Result<u32, CursorError>)
        ensures
            final(self).bytes() == old(self).bytes(),
            r.is_ok() <==> old(self).can_read(4),
            r.is_ok() ==> r.unwrap() as int == spec_le32(old(self).bytes(), old(self).offset())
                && final(self).offset() == old(self).offset() + 4,
            r.is_err() ==> final(self).offset() == old(self).offset(),
    {
        let v: u32 = match self.window(4) {
            Some(w) => le_read_u32(w),
            None => { return Err(CursorError::UnexpectedEnd); },
        };
        self.pos = self.pos + 4;
        Ok(v)
    }

    /// Reads a little-endian 64-bit integer and advances by eight.
    pub fn read_u64(&mut self) -> (r: Result<u64, CursorError>)
        ensures
            final(self).bytes() == old(self).bytes(),
            r.is_ok() <==> old(self).can_read(8),
            r.is_ok() ==> r.unwrap() as int == spec_le64(old(self).bytes(), old(self).offset())
                && final(self).offset() == old(self).offset() + 8,
            r.is_err() ==> final(self).offset() == old(self).offset(),
    {
        let v: u64 = match self.window(8) {
            Some(w) => le_read_u64(w),
            None => { return Err(CursorError::UnexpectedEnd); },
        };
        self.pos = self.pos + 8;
        Ok(v)
    }
}

} // verus!
