//! A read position over an immutable byte buffer.
use vstd::prelude::*;
use vstd::slice::slice_subrange;
use crate::decoders::endian::{be_u32_at, u32_from_be};

verus! {

/// A cursor over a borrowed byte buffer. The buffer is never changed; the
/// position may be set anywhere, also past the end, where every read fails.
/// A read either takes all the bytes it was asked for and moves past them, or
/// takes none and leaves the cursor where it was.
#[derive(Debug)]
pub struct ByteCursor<'a> {
    data: &'a [u8],
    pos: u64,
}

impl<'a> ByteCursor<'a> {
    /// The bytes of the buffer.
    pub closed spec fn bytes(&self) -> Seq<u8> {
        self.data@
    }

    /// The position of the next read, counted from the start of the buffer.
    pub closed spec fn offset(&self) -> int {
        self.pos as int
    }

    /// Whether `count` bytes can be read at the current position.
    pub open spec fn has(&self, count: int) -> bool {
        self.offset() + count <= self.bytes().len()
    }

    /// The byte that lies `ahead` bytes after the current position.
    pub open spec fn peek(&self, ahead: int) -> u8
        recommends
            0 <= ahead,
            self.has(ahead + 1),
    {
        self.bytes()[self.offset() + ahead]
    }

    /// The buffer is one that the machine can address.
    pub proof fn lemma_buffer_fits(&self)
        ensures
            self.bytes().len() <= usize::MAX,
    {
        assert(self.data.len() == self.data@.len());
    }

    /// A cursor at the start of `data`.
    pub fn new(data: &'a [u8]) -> (cursor: Self)
        ensures
            cursor.bytes() == data@,
            cursor.offset() == 0,
    {
        ByteCursor { data, pos: 0 }
    }

    /// The current position.
    pub fn position(&self) -> (pos: u64)
        ensures
            pos == self.offset(),
    {
        self.pos
    }

    /// The length of the buffer.
    pub fn len(&self) -> (len: usize)
        ensures
            len == self.bytes().len(),
    {
        self.data.len()
    }

    /// Moves the cursor to `pos`, which may lie anywhere.
    pub fn seek(&mut self, pos: u64)
        ensures
            final(self).bytes() == old(self).bytes(),
            final(self).offset() == pos,
    {
        self.pos = pos;
    }

    /// Whether `count` bytes can be read at the current position.
    pub fn can_read(&self, count: usize) -> (enough: bool)
        ensures
            enough == self.has(count as int),
    {
        let len: usize = self.data.len();
        self.pos <= len as u64 && count <= len - self.pos as usize
    }

    /// Reads `count` bytes, or none if fewer are left.
    pub fn read_exact(&mut self, count: usize) -> (taken: Option<&'a [u8]>)
        ensures
            final(self).bytes() == old(self).bytes(),
            taken is Some == old(self).has(count as int),
            taken matches Some(slice) ==> {
                &&& slice@ == old(self).bytes().subrange(
                    old(self).offset(),
                    old(self).offset() + count,
                )
                &&& final(self).offset() == old(self).offset() + count
            },
            taken is None ==> final(self).offset() == old(self).offset(),
    {
        if self.can_read(count) {
            Some(self.take(count))
        } else {
            None
        }
    }

    /// Reads `count` bytes that are known to be there.
    pub fn take(&mut self, count: usize) -> (taken: &'a [u8])
        requires
            old(self).has(count as int),
        ensures
            final(self).bytes() == old(self).bytes(),
            final(self).offset() == old(self).offset() + count,
            taken@ == old(self).bytes().subrange(old(self).offset(), old(self).offset() + count),
    {
        let data: &'a [u8] = self.data;
        assert(data.len() == self.bytes().len());
        let start: usize = self.pos as usize;
        let slice: &'a [u8] = slice_subrange(data, start, start + count);
        self.pos = (start + count) as u64;
        slice
    }

    /// Reads one byte.
    pub fn read_u8(&mut self) -> (taken: Option<u8>)
        ensures
            final(self).bytes() == old(self).bytes(),
            taken is Some == old(self).has(1),
            taken matches Some(byte) ==> {
                &&& byte == old(self).peek(0)
                &&& final(self).offset() == old(self).offset() + 1
            },
            taken is None ==> final(self).offset() == old(self).offset(),
    {
        match self.read_exact(1) {
            Some(slice) => Some(slice[0]),
            None => None,
        }
    }

    /// Reads a four-byte tag.
    pub fn read_tag(&mut self) -> (taken: Option<[u8; 4]>)
        ensures
            final(self).bytes() == old(self).bytes(),
            taken is Some == old(self).has(4),
            taken matches Some(tag) ==> {
                &&& tag@ == old(self).bytes().subrange(old(self).offset(), old(self).offset() + 4)
                &&& final(self).offset() == old(self).offset() + 4
            },
            taken is None ==> final(self).offset() == old(self).offset(),
    {
        match self.read_exact(4) {
            Some(slice) => {
                let tag: [u8; 4] = [slice[0], slice[1], slice[2], slice[3]];
                assert(tag@ =~= slice@);
                Some(tag)
            },
            None => None,
        }
    }

    /// Reads a big-endian 32-bit integer.
    pub fn read_u32_be(&mut self) -> (taken: Option<u32>)
        ensures
            final(self).bytes() == old(self).bytes(),
            taken is Some == old(self).has(4),
            taken matches Some(value) ==> {
                &&& value == be_u32_at(old(self).bytes(), old(self).offset())
                &&& final(self).offset() == old(self).offset() + 4
            },
            taken is None ==> final(self).offset() == old(self).offset(),
    {
        match self.read_exact(4) {
            Some(slice) => Some(u32_from_be(slice[0], slice[1], slice[2], slice[3])),
            None => None,
        }
    }
}

} // verus!
