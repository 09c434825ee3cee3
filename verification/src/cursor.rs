//! A stateful adapter that turns positioned access into conventional
//! sequential stream access.

use crate::error::IoError;
use crate::model::avail_of;
use crate::model::overwrite;
use crate::model::write_outcome;
use crate::traits::PositionedIo;
use crate::traits::ReadAt;
use crate::traits::Size;
use crate::traits::WriteAt;
use vstd::math::min;
use vstd::prelude::*;

verus! {

/// Where a seek is anchored: at the start, at the current position, or at
/// the end of the resource.
#[derive(Clone, Copy, Debug, PartialEq, Eq, Structural)]
pub enum SeekFrom {
    /// An absolute position from the start.
    Start(u64),
    /// A signed displacement from the current position.
    Current(i64),
    /// A signed displacement from the reported end; it requires the wrapped
    /// resource to report a definite size.
    End(i64),
}

/// Adapts a positioned resource into a sequential stream.
///
/// A `Cursor` owns the wrapped resource and a single position. Every read
/// or write is issued at that position and advances it by the number of
/// bytes actually transferred; seeks move it directly. The position is the
/// cursor's own: the wrapped resource keeps none, so wrapping never disturbs
/// other users of an equal resource. A `Cursor` itself, though, is mutated
/// by every call, and so trades the positioned contract's freedom from
/// shared state for stream ergonomics: concurrent callers must synchronize
/// around it.
#[derive(Debug, Clone)]
pub struct Cursor<I> {
    /// The wrapped positioned resource.
    pub io: I,
    /// The position at which the next read or write is issued.
    pub pos: u64,
}

impl<I> Cursor<I> {
    /// Creates a cursor over `io` that starts at position `pos`.
    pub fn new_pos(io: I, pos: u64) -> (c: Self)
        ensures
            c.io == io,
            c.pos == pos,
    {
        Cursor { io, pos }
    }

    /// Creates a cursor over `io` that starts at position zero.
    pub fn new(io: I) -> (c: Self)
        ensures
            c.io == io,
            c.pos == 0,
    {
        Self::new_pos(io, 0)
    }

    /// Consumes the cursor and yields the wrapped resource.
    pub fn into_inner(self) -> (io: I)
        ensures
            io == self.io,
    {
        self.io
    }

    /// Borrows the wrapped resource.
    pub fn get_ref(&self) -> (io: &I)
        ensures
            *io == self.io,
    {
        &self.io
    }

    /// Borrows the wrapped resource mutably.
    pub fn get_mut(&mut self) -> (io: &mut I)
        ensures
            *io == old(self).io,
            final(self).io == *final(io),
            final(self).pos == old(self).pos,
    {
        &mut self.io
    }

    /// The current read and write position.
    pub fn position(&self) -> (p: u64)
        ensures
            p == self.pos,
    {
        self.pos
    }

    /// Sets the current read and write position.
    pub fn set_position(&mut self, pos: u64)
        ensures
            final(self).pos == pos,
            final(self).io == old(self).io,
    {
        self.pos = pos;
    }
}

impl<I: ReadAt> Cursor<I> {
    /// Reads at the current position and advances it by the number of bytes
    /// actually read, which is returned. A failed read moves nothing.
    pub fn read(&mut self, buf: &mut Vec<u8>) -> (r: Result<usize, IoError>)
        ensures
            final(self).io == old(self).io,
            final(buf)@.len() == old(buf)@.len(),
            match r {
                Ok(n) => {
                    &&& n <= old(buf)@.len()
                    &&& n as int <= avail_of(
                        old(self).io.contents().len() as int,
                        old(self).pos as int,
                    )
                    &&& final(self).pos == old(self).pos + n
                    &&& (forall|i: int|
                        0 <= i < n ==> final(buf)@[i] == old(self).io.contents()[old(
                            self,
                        ).pos as int + i])
                    &&& (forall|i: int|
                        n <= i < old(buf)@.len() ==> final(buf)@[i] == old(buf)@[i])
                    &&& (old(self).io.exact() ==> n as int == min(
                        old(buf)@.len() as int,
                        avail_of(old(self).io.contents().len() as int, old(self).pos as int),
                    ))
                },
                Err(_) => final(self).pos == old(self).pos && final(buf)@ == old(buf)@,
            },
            old(self).io.exact() ==> r matches Ok(_),
    {
        let pos = self.pos;
        match self.io.read_at(pos, buf) {
            Ok(n) => {
                self.pos = self.pos + n as u64;
                Ok(n)
            },
            Err(e) => Err(e),
        }
    }
}

impl<I: WriteAt> Cursor<I> {
    /// Writes at the current position and advances it by the number of bytes
    /// actually consumed, which is returned. A failed write moves nothing
    /// and leaves the resource's contents as they were.
    pub fn write(&mut self, buf: &Vec<u8>) -> (r: Result<usize, IoError>)
        ensures
            final(self).io.exact() == old(self).io.exact(),
            match r {
                Ok(n) => {
                    &&& final(self).pos == old(self).pos + n
                    &&& write_outcome(
                        old(self).io.contents(),
                        final(self).io.contents(),
                        old(self).pos as int,
                        buf@,
                        n as int,
                    )
                    &&& (old(self).io.exact() ==> {
                        &&& n as int == old(self).io.write_count(
                            old(self).pos as int,
                            buf@.len() as int,
                        )
                        &&& final(self).io.contents() == overwrite(
                            old(self).io.contents(),
                            old(self).pos as int,
                            buf@.take(n as int),
                        )
                    })
                },
                Err(_) => final(self).pos == old(self).pos && final(self).io.contents() == old(
                    self,
                ).io.contents(),
            },
            old(self).io.exact() ==> r matches Ok(_),
    {
        let pos = self.pos;
        match self.io.write_at(pos, buf) {
            Ok(n) => {
                self.pos = self.pos + n as u64;
                Ok(n)
            },
            Err(e) => Err(e),
        }
    }

    /// Flushes the wrapped resource; the position is unaffected.
    pub fn flush(&mut self) -> (r: Result<(), IoError>)
        ensures
            final(self).pos == old(self).pos,
            final(self).io.contents() == old(self).io.contents(),
            final(self).io.exact() == old(self).io.exact(),
            old(self).io.exact() ==> r matches Ok(_),
    {
        self.io.flush()
    }
}

impl<I: Size> Cursor<I> {
    /// Moves the position as `from` directs and returns the new position.
    ///
    /// A seek from the start always succeeds. A seek from the current
    /// position that would land before zero fails with an invalid-seek
    /// error and moves nothing. A seek from the end requires the wrapped
    /// resource to report a definite size; when it cannot, or when the
    /// target would lie before zero, the seek fails the same way. A failure
    /// while querying the size is surfaced unchanged.
    pub fn seek(&mut self, from: SeekFrom) -> (r: Result<u64, IoError>)
        requires
            (match from {
                SeekFrom::Start(_) => true,
                SeekFrom::Current(d) => old(self).pos + d <= u64::MAX,
                SeekFrom::End(d) => (old(self).io.size_spec() matches Some(s) ==> s + d
                    <= u64::MAX),
            }),
        ensures
            final(self).io == old(self).io,
            match from {
                SeekFrom::Start(p) => final(self).pos == p && r == Ok::<u64, IoError>(p),
                SeekFrom::Current(d) => (if old(self).pos + d >= 0 {
                    &&& final(self).pos == old(self).pos + d
                    &&& r == Ok::<u64, IoError>(final(self).pos)
                } else {
                    &&& final(self).pos == old(self).pos
                    &&& r == Err::<u64, IoError>(IoError::InvalidSeek)
                }),
                SeekFrom::End(d) => (match r {
                    Ok(p) => {
                        &&& old(self).io.size_spec() matches Some(s) && 0 <= s + d && p == (s
                            + d) as u64
                        &&& final(self).pos == p
                    },
                    Err(e) => {
                        &&& final(self).pos == old(self).pos
                        &&& (old(self).io.exact() ==> e == IoError::InvalidSeek && (old(
                            self,
                        ).io.size_spec() is None || (old(self).io.size_spec() matches Some(s) && s
                            + d < 0)))
                    },
                }),
            },
    {
        match from {
            SeekFrom::Start(p) => {
                self.pos = p;
                Ok(self.pos)
            },
            SeekFrom::Current(d) => {
                if d >= 0 {
                    self.pos = self.pos + (d as u64);
                    Ok(self.pos)
                } else {
                    let back: u64 = if d == i64::MIN {
                        9223372036854775808u64
                    } else {
                        (-d) as u64
                    };
                    if self.pos < back {
                        Err(IoError::InvalidSeek)
                    } else {
                        self.pos = self.pos - back;
                        Ok(self.pos)
                    }
                }
            },
            SeekFrom::End(d) => {
                let sz = match self.io.size() {
                    Ok(sz) => sz,
                    Err(e) => {
                        return Err(e);
                    },
                };
                match sz {
                    None => Err(IoError::InvalidSeek),
                    Some(s) => {
                        if d >= 0 {
                            self.pos = s + (d as u64);
                            Ok(self.pos)
                        } else {
                            let back: u64 = if d == i64::MIN {
                                9223372036854775808u64
                            } else {
                                (-d) as u64
                            };
                            if s < back {
                                Err(IoError::InvalidSeek)
                            } else {
                                self.pos = s - back;
                                Ok(self.pos)
                            }
                        }
                    },
                }
            },
        }
    }
}

} // verus!
