//! A sequential byte source over a buffer in memory.
//!
//! Decoding consumes a [`ByteReader`] front to back. Every read either
//! delivers exactly the bytes that were asked for or fails: a record is never
//! built from fewer bytes than its fields declare.

use crate::wire::get_i64_be;
use crate::wire::get_u32_be;
use crate::wire::get_u64_be;
use crate::wire::i64_from_be;
use crate::wire::u32_from_be;
use crate::wire::u64_from_be;
use vstd::prelude::*;
use vstd::slice::slice_subrange;
use vstd::slice::slice_to_vec;

verus! {

/// Why a decode gave no record.
#[derive(Debug, Clone, Copy, PartialEq, Eq)]
pub enum DecodeError {
    /// The source ended before a field was complete: inside a fixed-width
    /// header field, or before as many key or value bytes as the header
    /// declares.
    UnexpectedEnd,
}

/// A cursor over an owned byte buffer.
///
/// Its state is the number of bytes consumed so far and the bytes that are
/// still unread. A read that succeeds moves bytes from the unread part to the
/// consumed count; a read that fails drains the reader, as a source does that
/// hit its end.
pub struct ByteReader {
    data: Vec<u8>,
    pos: usize,
}

impl ByteReader {
    #[verifier::type_invariant]
    spec fn in_bounds(self) -> bool {
        self.pos <= self.data@.len()
    }

    /// How many bytes have been consumed.
    pub closed spec fn consumed(&self) -> nat {
        self.pos as nat
    }

    /// The bytes that the next reads will deliver, in order.
    pub closed spec fn unread(&self) -> Seq<u8> {
        self.data@.skip(self.pos as int)
    }

    /// This reader is `before` after `n` of its unread bytes were consumed.
    pub open spec fn follows(&self, before: &ByteReader, n: nat) -> bool {
        &&& n <= before.unread().len()
        &&& self.unread() == before.unread().skip(n as int)
        &&& self.consumed() == before.consumed() + n
    }

    /// This reader is `before` after a read that failed: nothing is left
    /// unread.
    pub open spec fn drained(&self, before: &ByteReader) -> bool {
        &&& self.unread() == Seq::<u8>::empty()
        &&& self.consumed() == before.consumed() + before.unread().len()
    }

    /// A reader at the start of `data`.
    pub fn new(data: Vec<u8>) -> (rdr: Self)
        ensures
            rdr.consumed() == 0,
            rdr.unread() == data@,
    {
        ByteReader { data, pos: 0 }
    }

    /// The offset of the next unread byte from the start of the buffer.
    pub fn position(&self) -> (pos: usize)
        ensures
            pos == self.consumed(),
    {
        self.pos
    }

    /// The number of unread bytes.
    pub fn remaining(&self) -> (n: usize)
        ensures
            n == self.unread().len(),
    {
        proof {
            use_type_invariant(self);
        }
        self.data.len() - self.pos
    }

    /// Sets the reader at its end; what a failed read leaves behind.
    fn drain(&mut self)
        ensures
            final(self).drained(old(self)),
    {
        proof {
            use_type_invariant(&*self);
        }
        self.pos = self.data.len();
        assert(self.data@.skip(self.pos as int) =~= Seq::<u8>::empty());
    }

    /// Reads exactly `n` bytes, or fails if fewer are left.
    pub fn read_exact(&mut self, n: u64) -> (res: Result<Vec<u8>, DecodeError>)
        ensures
            match res {
                Ok(bytes) => {
                    &&& bytes@ == old(self).unread().take(n as int)
                    &&& final(self).follows(old(self), n as nat)
                },
                Err(e) => {
                    &&& n > old(self).unread().len()
                    &&& e == DecodeError::UnexpectedEnd
                    &&& final(self).drained(old(self))
                },
            },
    {
        if n > self.remaining() as u64 {
            self.drain();
            return Err(DecodeError::UnexpectedEnd);
        }
        Ok(slice_to_vec(self.advance(n as usize)))
    }

    /// The slice of the next `n` unread bytes; the reader moves past them.
    fn advance(&mut self, n: usize) -> (field: &[u8])
        requires
            n <= old(self).unread().len(),
        ensures
            field@ == old(self).unread().take(n as int),
            final(self).follows(old(self), n as nat),
    {
        proof {
            use_type_invariant(&*self);
            assert(self.data@.len() == self.data.len());
        }
        let start: usize = self.pos;
        let end: usize = start + n;
        proof {
            let unread = self.data@.skip(start as int);
            assert(self.data@.skip(end as int) =~= unread.skip(n as int));
        }
        self.pos = end;
        slice_subrange(self.data.as_slice(), start, end)
    }

    /// Reads a big-endian `u32`, or fails if fewer than four bytes are left.
    pub fn read_u32_be(&mut self) -> (res: Result<u32, DecodeError>)
        ensures
            match res {
                Ok(x) => x == u32_from_be(old(self).unread()) && final(self).follows(old(self), 4),
                Err(e) => {
                    &&& old(self).unread().len() < 4
                    &&& e == DecodeError::UnexpectedEnd
                    &&& final(self).drained(old(self))
                },
            },
    {
        if self.remaining() < 4 {
            self.drain();
            return Err(DecodeError::UnexpectedEnd);
        }
        Ok(get_u32_be(self.advance(4)))
    }

    /// Reads a big-endian `u64`, or fails if fewer than eight bytes are left.
    pub fn read_u64_be(&mut self) -> (res: Result<u64, DecodeError>)
        ensures
            match res {
                Ok(x) => x == u64_from_be(old(self).unread()) && final(self).follows(old(self), 8),
                Err(e) => {
                    &&& old(self).unread().len() < 8
                    &&& e == DecodeError::UnexpectedEnd
                    &&& final(self).drained(old(self))
                },
            },
    {
        if self.remaining() < 8 {
            self.drain();
            return Err(DecodeError::UnexpectedEnd);
        }
        Ok(get_u64_be(self.advance(8)))
    }

    /// Reads a big-endian `i64`, or fails if fewer than eight bytes are left.
    pub fn read_i64_be(&mut self) -> (res: Result<i64, DecodeError>)
        ensures
            match res {
                Ok(x) => x == i64_from_be(old(self).unread()) && final(self).follows(old(self), 8),
                Err(e) => {
                    &&& old(self).unread().len() < 8
                    &&& e == DecodeError::UnexpectedEnd
                    &&& final(self).drained(old(self))
                },
            },
    {
        if self.remaining() < 8 {
            self.drain();
            return Err(DecodeError::UnexpectedEnd);
        }
        Ok(get_i64_be(self.advance(8)))
    }
}

} // verus!
