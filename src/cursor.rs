use vstd::prelude::*;
use vstd::slice::{slice_index_get, slice_subrange};

use crate::error::DecodeError;

verus! {

/// The bytes `d[pos..pos + n]`, and the offset after them, when they exist.
pub open spec fn read_bytes(d: Seq<u8>, pos: int, n: int) -> Result<(Seq<u8>, int), DecodeError> {
    if 0 <= pos && 0 <= n && pos + n <= d.len() {
        Ok((d.subrange(pos, pos + n), pos + n))
    } else {
        Err(DecodeError::InsufficientData)
    }
}

/// A bounds-checked sequential reader over an immutable byte buffer.
pub struct ByteCursor<'a> {
    data: &'a [u8],
    pos: usize,
}

impl<'a> ByteCursor<'a> {
    /// The buffer being read.
    pub closed spec fn bytes(&self) -> Seq<u8> {
        self.data@
    }

    /// The offset of the next byte to read.
    pub closed spec fn position(&self) -> int {
        self.pos as int
    }

    pub open spec fn wf(&self) -> bool {
        0 <= self.position() <= self.bytes().len()
    }

    pub fn new(data: &'a [u8]) -> (c: Self)
        ensures
            c.bytes() == data@,
            c.position() == 0,
            c.wf(),
    {
        ByteCursor { data, pos: 0 }
    }

    pub fn offset(&self) -> (r: usize)
        ensures
            r == self.position(),
    {
        self.pos
    }

    pub fn remaining(&self) -> (r: usize)
        requires
            self.wf(),
        ensures
            r == self.bytes().len() - self.position(),
    {
        self.data.len() - self.pos
    }

    /// Succeeds exactly when at least `n` bytes remain.
    pub fn require(&self, n: usize) -> (r: Result<(), DecodeError>)
        requires
            self.wf(),
        ensures
            r is Ok <==> self.position() + n <= self.bytes().len(),
            r is Err ==> r == Err::<(), DecodeError>(DecodeError::InsufficientData),
    {
        if n <= self.data.len() - self.pos {
            Ok(())
        } else {
            Err(DecodeError::InsufficientData)
        }
    }

    /// The byte `k` places past the current offset, without advancing.
    pub fn peek(&self, k: usize) -> (r: Option<u8>)
        requires
            self.wf(),
        ensures
            r == (if self.position() + k < self.bytes().len() {
                Some(self.bytes()[self.position() + k])
            } else {
                None::<u8>
            }),
    {
        if k < self.data.len() - self.pos {
            Some(*slice_index_get(self.data, self.pos + k))
        } else {
            None
        }
    }

    /// The next `n` bytes; the offset moves past them. On failure it stays.
    pub fn take(&mut self, n: usize) -> (r: Result<&'a [u8], DecodeError>)
        requires
            old(self).wf(),
        ensures
            final(self).wf(),
            final(self).bytes() == old(self).bytes(),
            match read_bytes(old(self).bytes(), old(self).position(), n as int) {
                Ok((s, e)) => r is Ok && r->Ok_0@ == s && final(self).position() == e,
                Err(e) => r == Err::<&'a [u8], DecodeError>(e) && final(self).position()
                    == old(self).position(),
            },
    {
        if n <= self.data.len() - self.pos {
            let s = slice_subrange(self.data, self.pos, self.pos + n);
            self.pos = self.pos + n;
            Ok(s)
        } else {
            Err(DecodeError::InsufficientData)
        }
    }

    /// The next byte; the offset moves past it.
    pub fn read_u8(&mut self) -> (r: Result<u8, DecodeError>)
        requires
            old(self).wf(),
        ensures
            final(self).wf(),
            final(self).bytes() == old(self).bytes(),
            match read_bytes(old(self).bytes(), old(self).position(), 1) {
                Ok((s, e)) => r == Ok::<u8, DecodeError>(s[0]) && final(self).position() == e,
                Err(e) => r == Err::<u8, DecodeError>(e) && final(self).position()
                    == old(self).position(),
            },
    {
        if self.pos < self.data.len() {
            let b = *slice_index_get(self.data, self.pos);
            self.pos = self.pos + 1;
            Ok(b)
        } else {
            Err(DecodeError::InsufficientData)
        }
    }

    /// Whether every byte has been read.
    pub fn is_exhausted(&self) -> (r: bool)
        requires
            self.wf(),
        ensures
            r <==> self.position() == self.bytes().len(),
    {
        self.pos == self.data.len()
    }

    /// The next `n` bytes, for a length read from the buffer itself.
    pub fn take_len(&mut self, n: u64) -> (r: Result<&'a [u8], DecodeError>)
        requires
            old(self).wf(),
        ensures
            final(self).wf(),
            final(self).bytes() == old(self).bytes(),
            match read_bytes(old(self).bytes(), old(self).position(), n as int) {
                Ok((s, e)) => r is Ok && r->Ok_0@ == s && final(self).position() == e,
                Err(e) => r == Err::<&'a [u8], DecodeError>(e) && final(self).position()
                    == old(self).position(),
            },
    {
        let rest = self.data.len() - self.pos;
        if (n as u128) <= (rest as u128) {
            self.take(n as usize)
        } else {
            Err(DecodeError::InsufficientData)
        }
    }
}

} // verus!
