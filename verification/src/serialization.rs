//! Reading of serialized values.
use vstd::prelude::*;
use crate::vlq;

verus! {

/// What can be wrong with serialized bytes.
#[derive(Debug, Clone, Copy, PartialEq, Eq, Structural)]
pub enum SigmaParsingError {
    /// The input ends inside of a value.
    UnexpectedEof,
    /// A variable-length number without a last byte.
    VlqDecodingFailed,
    /// A number that is too large for its type.
    TryFrom,
    /// A read of bytes that starts behind the end of the window.
    PositionLimitExceeded { position: usize, limit: usize },
}

/// Why a value has no serialized form.
#[derive(Debug, Clone, PartialEq, Eq)]
pub enum SigmaSerializationError {
    NotSupported(String),
}

/// Reader over bytes. A position limit is a soft window: it is held against
/// the position at which a read of bytes starts, not against its end.
pub struct SigmaByteReader<'a> {
    data: &'a [u8],
    pos: usize,
    position_limit: Option<usize>,
}

impl<'a> SigmaByteReader<'a> {
    /// All bytes that this reader is over.
    pub closed spec fn data(self) -> Seq<u8> {
        self.data@
    }

    /// Number of bytes already read.
    pub closed spec fn pos(self) -> int {
        self.pos as int
    }

    pub closed spec fn position_limit(self) -> Option<usize> {
        self.position_limit
    }

    /// The position is inside of the data.
    pub open spec fn wf(self) -> bool {
        0 <= self.pos() <= self.data().len()
    }

    /// Bytes that are not read yet.
    pub open spec fn rest(self) -> Seq<u8> {
        self.data().skip(self.pos())
    }

    /// `after` is this reader with `n` more bytes read.
    pub open spec fn advanced(self, after: SigmaByteReader, n: int) -> bool {
        &&& after.wf()
        &&& after.data() == self.data()
        &&& after.position_limit() == self.position_limit()
        &&& after.pos() == self.pos() + n
        &&& n <= self.rest().len()
    }

    /// `after` is a reader over the same data, at the same or a later position.
    pub open spec fn moved(self, after: SigmaByteReader) -> bool {
        &&& after.wf()
        &&& after.data() == self.data()
        &&& after.position_limit() == self.position_limit()
        &&& self.pos() <= after.pos()
    }

    /// Whether a read of bytes may not start at a position.
    pub open spec fn beyond(limit: Option<usize>, position: int) -> bool {
        match limit {
            Some(limit) => position > limit,
            None => false,
        }
    }

    /// A reader at the start of the data, without a window.
    pub fn from_bytes(data: &'a [u8]) -> (r: SigmaByteReader<'a>)
        ensures
            r.wf(),
            r.data() == data@,
            r.pos() == 0,
            r.position_limit() is None,
    {
        SigmaByteReader { data, pos: 0, position_limit: None }
    }

    /// A reader at the start of the data, with a window.
    pub fn with_position_limit(data: &'a [u8], position_limit: usize) -> (r: SigmaByteReader<'a>)
        ensures
            r.wf(),
            r.data() == data@,
            r.pos() == 0,
            r.position_limit() == Some(position_limit),
    {
        SigmaByteReader { data, pos: 0, position_limit: Some(position_limit) }
    }

    /// Number of bytes already read.
    pub fn position(&self) -> (r: usize)
        ensures
            r == self.pos(),
    {
        self.pos
    }

    /// Reads one byte.
    pub fn get_u8(&mut self) -> (r: Result<u8, SigmaParsingError>)
        requires
            old(self).wf(),
        ensures
            match r {
                Ok(b) => old(self).rest().len() > 0 && b == old(self).rest()[0] && old(
                    self,
                ).advanced(*final(self), 1),
                Err(e) => old(self).rest().len() == 0 && e == SigmaParsingError::UnexpectedEof
                    && old(self).advanced(*final(self), 0),
            },
    {
        if self.pos < self.data.len() {
            let b: u8 = self.data[self.pos];
            self.pos = self.pos + 1;
            Ok(b)
        } else {
            Err(SigmaParsingError::UnexpectedEof)
        }
    }

    /// Reads a variable-length number.
    pub fn get_u64(&mut self) -> (r: Result<u64, SigmaParsingError>)
        requires
            old(self).wf(),
        ensures
            match r {
                Ok(v) => vlq::read_u64(old(self).rest()) == Ok::<(u64, nat), SigmaParsingError>(
                    (v, (final(self).pos() - old(self).pos()) as nat),
                ),
                Err(e) => vlq::read_u64(old(self).rest()) == Err::<(u64, nat), SigmaParsingError>(
                    e,
                ),
            },
            old(self).moved(*final(self)),
    {
        let (r, next) = vlq::get_u64(self.data, self.pos);
        self.pos = next;
        r
    }

    /// Reads a variable-length number of 32 bits.
    pub fn get_u32(&mut self) -> (r: Result<u32, SigmaParsingError>)
        requires
            old(self).wf(),
        ensures
            match r {
                Ok(v) => vlq::read_u32(old(self).rest()) == Ok::<(u32, nat), SigmaParsingError>(
                    (v, (final(self).pos() - old(self).pos()) as nat),
                ),
                Err(e) => vlq::read_u32(old(self).rest()) == Err::<(u32, nat), SigmaParsingError>(
                    e,
                ),
            },
            old(self).moved(*final(self)),
    {
        match self.get_u64() {
            Ok(v) => if v <= 0xffff_ffff {
                Ok(v as u32)
            } else {
                Err(SigmaParsingError::TryFrom)
            },
            Err(e) => Err(e),
        }
    }

    /// Reads a variable-length number of 16 bits.
    pub fn get_u16(&mut self) -> (r: Result<u16, SigmaParsingError>)
        requires
            old(self).wf(),
        ensures
            match r {
                Ok(v) => vlq::read_u16(old(self).rest()) == Ok::<(u16, nat), SigmaParsingError>(
                    (v, (final(self).pos() - old(self).pos()) as nat),
                ),
                Err(e) => vlq::read_u16(old(self).rest()) == Err::<(u16, nat), SigmaParsingError>(
                    e,
                ),
            },
            old(self).moved(*final(self)),
    {
        match self.get_u64() {
            Ok(v) => if v <= 0xffff {
                Ok(v as u16)
            } else {
                Err(SigmaParsingError::TryFrom)
            },
            Err(e) => Err(e),
        }
    }

    /// Reads a number of bytes, wherever the read starts.
    pub fn read_exact(&mut self, n: usize) -> (r: Result<Vec<u8>, SigmaParsingError>)
        requires
            old(self).wf(),
        ensures
            match r {
                Ok(bytes) => n <= old(self).rest().len() && bytes@ == old(self).rest().take(
                    n as int,
                ) && old(self).advanced(*final(self), n as int),
                Err(e) => n > old(self).rest().len() && e == SigmaParsingError::UnexpectedEof
                    && old(self).advanced(*final(self), 0),
            },
    {
        if n > self.data.len() - self.pos {
            return Err(SigmaParsingError::UnexpectedEof);
        }
        let mut bytes: Vec<u8> = Vec::new();
        let mut i: usize = 0;
        while i < n
            invariant
                i <= n,
                self.pos + n <= self.data@.len(),
                self.data@.len() <= usize::MAX,
                bytes@ == self.rest().take(i as int),
                self == old(self),
            decreases n - i,
        {
            bytes.push(self.data[self.pos + i]);
            i += 1;
            assert(bytes@ =~= self.rest().take(i as int));
        }
        self.pos = self.pos + n;
        Ok(bytes)
    }

    /// Reads a number of bytes. The read has to start inside of the window.
    pub fn get_bytes(&mut self, n: usize) -> (r: Result<Vec<u8>, SigmaParsingError>)
        requires
            old(self).wf(),
        ensures
            match r {
                Ok(bytes) => !Self::beyond(old(self).position_limit(), old(self).pos()) && n <= old(
                    self,
                ).rest().len() && bytes@ == old(self).rest().take(n as int) && old(self).advanced(
                    *final(self),
                    n as int,
                ),
                Err(e) => {
                    &&& old(self).advanced(*final(self), 0)
                    &&& if Self::beyond(old(self).position_limit(), old(self).pos()) {
                        e matches SigmaParsingError::PositionLimitExceeded { position, limit }
                            && position == old(self).pos() && Some(limit) == old(
                            self,
                        ).position_limit()
                    } else {
                        n > old(self).rest().len() && e == SigmaParsingError::UnexpectedEof
                    }
                },
            },
    {
        if let Some(limit) = self.position_limit {
            if self.pos > limit {
                return Err(SigmaParsingError::PositionLimitExceeded { position: self.pos, limit });
            }
        }
        self.read_exact(n)
    }
}

/// What is left to read is the data from the position on, up to its end.
pub proof fn law_rest_of_the_data(r: SigmaByteReader)
    requires
        r.wf(),
    ensures
        0 <= r.pos() <= r.data().len(),
        r.rest() == r.data().subrange(r.pos(), r.data().len() as int),
{
    assert(r.rest() =~= r.data().subrange(r.pos(), r.data().len() as int));
}

/// A reader that has read `n` bytes more is over the same data and window,
/// `n` further, and has that much less to read.
pub proof fn law_advanced_readers(r: SigmaByteReader, after: SigmaByteReader, n: int)
    requires
        r.wf(),
        0 <= n,
        r.advanced(after, n),
    ensures
        after.wf(),
        after.data() == r.data(),
        after.position_limit() == r.position_limit(),
        after.pos() == r.pos() + n,
        n <= r.rest().len(),
        after.rest() == r.rest().subrange(n, r.rest().len() as int),
{
    assert(after.rest() =~= r.rest().subrange(n, r.rest().len() as int));
}

/// A reader that moved is over the same data and window, and not before the
/// position at which it was.
pub proof fn law_moved_readers(r: SigmaByteReader, after: SigmaByteReader)
    requires
        r.wf(),
        r.moved(after),
    ensures
        after.wf(),
        after.data() == r.data(),
        after.position_limit() == r.position_limit(),
        r.pos() <= after.pos() <= r.data().len(),
        after.rest() == r.data().subrange(after.pos(), r.data().len() as int),
{
    law_rest_of_the_data(after);
}

/// A position is beyond a window if it is above its limit; without a window
/// none is.
pub proof fn law_positions_beyond_a_window(limit: usize, position: int)
    ensures
        SigmaByteReader::beyond(Some(limit), position) <==> limit < position,
        !SigmaByteReader::beyond(None, position),
{
}

} // verus!
