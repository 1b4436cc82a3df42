//! An in-memory, seekable byte source.
//!
//! Every decoder of this crate reads from a [`ByteSource`]: the complete
//! bytes of a stream together with a read position. Reads and seeks are
//! fallible and never move the position when they fail.

use vstd::prelude::*;
use vstd::slice::slice_subrange;

verus! {

/// Why a read or a seek on a byte source failed.
#[derive(Clone, Copy, Debug, PartialEq, Eq, Structural)]
pub enum IoError {
    /// Fewer bytes remain than were asked for.
    UnexpectedEof,
    /// The target of a seek lies before the start or past the end.
    SeekOutOfRange,
}

/// A byte buffer with a read position that never passes its end.
pub struct ByteSource {
    data: Vec<u8>,
    pos: usize,
}

impl ByteSource {
    #[verifier::type_invariant]
    spec fn in_range(self) -> bool {
        self.pos <= self.data.len()
    }

    /// All bytes of the source, from its start.
    pub closed spec fn bytes(&self) -> Seq<u8> {
        self.data@
    }

    /// The read position, counted from the start.
    pub closed spec fn offset(&self) -> int {
        self.pos as int
    }

    /// The number of bytes between the read position and the end.
    pub open spec fn remaining(&self) -> int {
        self.bytes().len() - self.offset()
    }

    /// The read position lies inside the source, or at its end.
    pub open spec fn in_place(&self) -> bool {
        0 <= self.offset() <= self.bytes().len()
    }

    /// `after` holds the same bytes as `self` and stands `n` bytes further;
    /// both stand inside the source.
    pub open spec fn moved_to(&self, after: &ByteSource, n: int) -> bool {
        &&& after.bytes() == self.bytes()
        &&& after.offset() == self.offset() + n
        &&& self.in_place()
        &&& after.in_place()
    }

    /// A source over `data`, positioned at its start.
    pub fn new(data: Vec<u8>) -> (s: Self)
        ensures
            s.bytes() == data@,
            s.offset() == 0,
            s.in_place(),
    {
        ByteSource { data, pos: 0 }
    }

    /// The read position.
    pub fn position(&self) -> (p: u64)
        ensures
            p == self.offset(),
            self.in_place(),
    {
        proof {
            use_type_invariant(self);
        }
        self.pos as u64
    }

    /// The total number of bytes.
    pub fn len(&self) -> (n: usize)
        ensures
            n == self.bytes().len(),
    {
        self.data.len()
    }

    /// The number of bytes that can still be read.
    pub fn available(&self) -> (n: usize)
        ensures
            n == self.remaining(),
            self.in_place(),
    {
        proof {
            use_type_invariant(self);
        }
        self.data.len() - self.pos
    }

    /// The byte `ahead` places after the read position, without moving.
    pub fn peek(&self, ahead: usize) -> (b: u8)
        requires
            ahead < self.remaining(),
        ensures
            b == self.bytes()[self.offset() + ahead],
    {
        proof {
            use_type_invariant(self);
        }
        self.data[self.pos + ahead]
    }

    /// The bytes from the read position to the end, without moving.
    pub fn rest(&self) -> (s: &[u8])
        ensures
            s@ == self.bytes().subrange(self.offset(), self.bytes().len() as int),
            self.in_place(),
    {
        proof {
            use_type_invariant(self);
        }
        slice_subrange(self.data.as_slice(), self.pos, self.data.len())
    }

    /// A copy of the `n` bytes that start `ahead` places after the read
    /// position, without moving.
    pub fn copy_ahead(&self, ahead: usize, n: usize) -> (v: Vec<u8>)
        requires
            ahead + n <= self.remaining(),
        ensures
            v@ == self.bytes().subrange(self.offset() + ahead, self.offset() + ahead + n),
            self.in_place(),
    {
        proof {
            use_type_invariant(self);
        }
        let mut out: Vec<u8> = Vec::with_capacity(n);
        out.extend_from_slice(
            slice_subrange(self.data.as_slice(), self.pos + ahead, self.pos + ahead + n),
        );
        out
    }

    /// Moves the read position `n` bytes forward.
    pub fn advance(&mut self, n: usize)
        requires
            n <= old(self).remaining(),
        ensures
            old(self).moved_to(final(self), n as int),
    {
        proof {
            use_type_invariant(&*self);
        }
        self.pos = self.pos + n;
    }

    /// Moves the read position `n` bytes forward, if that many remain.
    pub fn skip(&mut self, n: usize) -> (r: Result<(), IoError>)
        ensures
            match r {
                Ok(_) => n <= old(self).remaining() && old(self).moved_to(final(self), n as int),
                Err(e) => {
                    &&& e == IoError::UnexpectedEof
                    &&& n > old(self).remaining()
                    &&& old(self).moved_to(final(self), 0)
                },
            },
    {
        if n <= self.available() {
            self.advance(n);
            Ok(())
        } else {
            Err(IoError::UnexpectedEof)
        }
    }

    /// Copies the next `n` bytes out and moves past them.
    pub fn read_exact(&mut self, n: usize) -> (r: Result<Vec<u8>, IoError>)
        ensures
            match r {
                Ok(v) => {
                    &&& n <= old(self).remaining()
                    &&& v@ == old(self).bytes().subrange(
                        old(self).offset(),
                        old(self).offset() + n,
                    )
                    &&& old(self).moved_to(final(self), n as int)
                },
                Err(e) => {
                    &&& e == IoError::UnexpectedEof
                    &&& n > old(self).remaining()
                    &&& old(self).moved_to(final(self), 0)
                },
            },
    {
        if n > self.available() {
            return Err(IoError::UnexpectedEof);
        }
        let out = self.copy_ahead(0, n);
        self.advance(n);
        Ok(out)
    }

    /// Moves the read position by `delta`, which may be negative. The target
    /// must lie between the start and the end, both included.
    pub fn seek_current(&mut self, delta: i64) -> (r: Result<u64, IoError>)
        ensures
            match r {
                Ok(p) => {
                    &&& 0 <= old(self).offset() + delta <= old(self).bytes().len()
                    &&& p == final(self).offset()
                    &&& old(self).moved_to(final(self), delta as int)
                },
                Err(e) => {
                    &&& e == IoError::SeekOutOfRange
                    &&& !(0 <= old(self).offset() + delta <= old(self).bytes().len())
                    &&& old(self).moved_to(final(self), 0)
                },
            },
    {
        proof {
            use_type_invariant(&*self);
        }
        if delta >= 0 {
            if delta as u64 <= (self.data.len() - self.pos) as u64 {
                self.pos = self.pos + delta as usize;
                Ok(self.pos as u64)
            } else {
                Err(IoError::SeekOutOfRange)
            }
        } else {
            // -delta does not overflow as a u64, even for i64::MIN
            let back: u64 = (-(delta + 1)) as u64 + 1;
            if back <= self.pos as u64 {
                self.pos = self.pos - back as usize;
                Ok(self.pos as u64)
            } else {
                Err(IoError::SeekOutOfRange)
            }
        }
    }

    /// Moves the read position to `target`, counted from the start.
    pub fn seek_start(&mut self, target: u64) -> (r: Result<u64, IoError>)
        ensures
            final(self).bytes() == old(self).bytes(),
            final(self).in_place(),
            match r {
                Ok(p) => {
                    &&& target <= old(self).bytes().len()
                    &&& p == target
                    &&& final(self).offset() == target
                },
                Err(e) => {
                    &&& e == IoError::SeekOutOfRange
                    &&& target > old(self).bytes().len()
                    &&& final(self).offset() == old(self).offset()
                },
            },
    {
        proof {
            use_type_invariant(&*self);
        }
        if target <= self.data.len() as u64 {
            self.pos = target as usize;
            Ok(target)
        } else {
            Err(IoError::SeekOutOfRange)
        }
    }

    /// Moves the read position back to the start.
    pub fn rewind(&mut self)
        ensures
            final(self).bytes() == old(self).bytes(),
            final(self).offset() == 0,
            final(self).in_place(),
    {
        self.pos = 0;
    }
}

} // verus!
