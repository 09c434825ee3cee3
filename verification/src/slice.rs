//! A window into another positioned resource.
//!
//! A [`Slice`] presents a bounded sub-range of a positioned resource as a
//! complete positioned resource of its own: externally visible offsets
//! `[0, size)` are translated into the wrapped resource's address space
//! `[offset, offset + size)`, and transfers that would cross the declared
//! boundary are clipped, never refused. A slice may describe a range that
//! exceeds the wrapped resource's real extent; reads are then truncated to
//! the bytes available, and writes beyond the real extent behave however the
//! wrapped resource's own positioned write behaves. Slices compose: a slice
//! of a slice translates addresses at each call, so reads through the chain
//! equal one read of the innermost resource at the composed offset.

use crate::error::IoError;
use crate::mem::zeroed;
use crate::model::avail_of;
use crate::model::overwrite;
use crate::model::read_from;
use crate::model::sat_add;
use crate::model::write_outcome;
use crate::model::lemma_overwrite_window;
use crate::model::lemma_read_from_composes;
use crate::model::lemma_window_write;
use crate::traits::PositionedIo;
use crate::traits::ReadAt;
use crate::traits::Size;
use crate::traits::WriteAt;
use vstd::math::min;
use vstd::prelude::*;

verus! {

/// One end of the range a slice is built from: a position that belongs to
/// the range, one that lies just outside it, or no limit at all.
#[derive(Clone, Copy, Debug, PartialEq, Eq, Structural)]
pub enum SliceBound {
    /// The range reaches this position.
    Included(u64),
    /// The range stops just before this position.
    Excluded(u64),
    /// The range is open at this end.
    Unbounded,
}

/// The starting offset a slice takes from the range's lower end. All
/// arithmetic saturates rather than wrapping.
pub open spec fn start_of_bound(start: SliceBound) -> int {
    match start {
        SliceBound::Included(p) => p as int,
        SliceBound::Excluded(p) => if p == u64::MAX {
            u64::MAX as int
        } else {
            p + 1
        },
        SliceBound::Unbounded => 0,
    }
}

/// The size a slice takes from the range's upper end, given its starting
/// offset. An open upper end, or one whose size would not fit, saturates to
/// the largest `u64` value, the sentinel for an unbounded slice; an upper
/// end at or before the starting offset yields an empty slice.
pub open spec fn size_of_bound(offset: int, end: SliceBound) -> int {
    match end {
        SliceBound::Included(e) => if e == u64::MAX {
            if offset == 0 {
                u64::MAX as int
            } else {
                u64::MAX - offset + 1
            }
        } else {
            if e + 1 >= offset {
                e + 1 - offset
            } else {
                0
            }
        },
        SliceBound::Excluded(e) => if e >= offset {
            e - offset
        } else {
            0
        },
        SliceBound::Unbounded => u64::MAX as int,
    }
}

/// A window of `size` bytes starting at `offset` of a wrapped positioned
/// resource.
///
/// A slice keeps no position of its own: every call is independently
/// addressed, translated, clipped at the declared boundary, and delegated.
/// A `size` equal to the largest `u64` value is the sentinel for an
/// unbounded window, which reports no size and never clips.
#[derive(Debug, Clone)]
pub struct Slice<I> {
    /// The wrapped positioned resource.
    pub io: I,
    /// Where the window begins in the wrapped resource's address space.
    pub offset: u64,
    /// The length of the window; the largest `u64` value means unbounded.
    pub size: u64,
}

impl<I> Slice<I> {
    /// Creates a slice of `io` over the given range of its address space.
    ///
    /// The lower end gives the slice's offset, the upper end its size; an
    /// open upper end leaves the slice unbounded. The bound arithmetic
    /// saturates rather than wrapping.
    pub fn new(io: I, start: SliceBound, end: SliceBound) -> (s: Self)
        ensures
            s.io == io,
            s.offset as int == start_of_bound(start),
            s.size as int == size_of_bound(start_of_bound(start), end),
    {
        let offset: u64 = match start {
            SliceBound::Included(p) => p,
            SliceBound::Excluded(p) => if p == u64::MAX {
                u64::MAX
            } else {
                p + 1
            },
            SliceBound::Unbounded => 0,
        };
        let size: u64 = match end {
            SliceBound::Included(e) => if e == u64::MAX {
                if offset == 0 {
                    u64::MAX
                } else {
                    u64::MAX - offset + 1
                }
            } else {
                if e + 1 >= offset {
                    e + 1 - offset
                } else {
                    0
                }
            },
            SliceBound::Excluded(e) => if e >= offset {
                e - offset
            } else {
                0
            },
            SliceBound::Unbounded => u64::MAX,
        };
        Slice { io, offset, size }
    }

    /// How many bytes of a transfer of `bytes` bytes at offset `pos` fall
    /// within the slice's boundary.
    pub fn avail(&self, pos: u64, bytes: usize) -> (n: usize)
        ensures
            n as int == min(bytes as int, avail_of(self.size as int, pos as int)),
    {
        let cap: u64 = if pos >= self.size {
            0
        } else {
            self.size - pos
        };
        if cap < bytes as u64 {
            cap as usize
        } else {
            bytes
        }
    }

    /// The wrapped resource's address for the slice offset `pos`, saturated
    /// at the largest `u64` address.
    fn translate(&self, pos: u64) -> (t: u64)
        ensures
            t as int == sat_add(self.offset as int, pos as int),
    {
        if pos > u64::MAX - self.offset {
            u64::MAX
        } else {
            pos + self.offset
        }
    }
}

impl<I: Size> Slice<I> {
    /// Creates a slice of `io` from `offset` to the end `io` reports.
    ///
    /// The wrapped resource must report a definite size; when it cannot, or
    /// when the size query itself fails, the construction fails with an
    /// unavailable-size error.
    pub fn new_to_end(io: I, offset: u64) -> (r: Result<Self, IoError>)
        ensures
            match r {
                Ok(s) => {
                    &&& io.size_spec() matches Some(n)
                    &&& s.io == io
                    &&& s.offset == offset
                    &&& s.size as int == size_of_bound(offset as int, SliceBound::Excluded(
                        io.size_spec()->Some_0,
                    ))
                },
                Err(e) => e == IoError::UnavailableSize && (io.exact() ==> io.size_spec()
                    is None),
            },
            io.exact() && (io.size_spec() matches Some(_)) ==> (r matches Ok(_)),
    {
        match io.size() {
            Ok(Some(n)) => Ok(Self::new(io, SliceBound::Included(offset), SliceBound::Excluded(n))),
            _ => Err(IoError::UnavailableSize),
        }
    }
}

impl<I: PositionedIo> PositionedIo for Slice<I> {
    /// The window the slice exposes: the wrapped contents from `offset`,
    /// for at most `size` bytes, clipped to the wrapped resource's extent.
    open spec fn contents(&self) -> Seq<u8> {
        read_from(self.io.contents(), self.offset as int, self.size as int)
    }

    open spec fn exact(&self) -> bool {
        self.io.exact()
    }
}

impl<I: ReadAt> ReadAt for Slice<I> {
    fn read_at(&self, pos: u64, buf: &mut Vec<u8>) -> (r: Result<usize, IoError>) {
        let count = self.avail(pos, buf.len());
        let target = self.translate(pos);
        let mut tmp: Vec<u8> = zeroed(count);
        match self.io.read_at(target, &mut tmp) {
            Ok(m) => {
                let mut i: usize = 0;
                while i < m
                    invariant
                        i <= m,
                        m <= tmp@.len(),
                        tmp@.len() <= buf@.len(),
                        buf@.len() == old(buf)@.len(),
                        forall|j: int| 0 <= j < i ==> buf@[j] == tmp@[j],
                        forall|j: int| i <= j < buf@.len() ==> buf@[j] == old(buf)@[j],
                    decreases m - i,
                {
                    let b: u8 = tmp[i];
                    buf[i] = b;
                    i = i + 1;
                }
                proof {
                    let base = self.io.contents();
                    let w = self.contents();
                    if m > 0 {
                        assert(target as int == self.offset + pos);
                        assert(target < base.len());
                        assert(w.len() == min(self.size as int, base.len() - self.offset));
                        assert(m as int <= avail_of(w.len() as int, pos as int));
                        assert forall|i: int| 0 <= i < m implies buf@[i] == w[pos as int
                            + i] by {
                            assert(buf@[i] == tmp@[i]);
                            assert(tmp@[i] == base[target as int + i]);
                            assert(w[pos as int + i] == base[target as int + i]);
                        }
                    }
                    if self.io.exact() {
                        assert(m as int == min(
                            buf@.len() as int,
                            avail_of(w.len() as int, pos as int),
                        ));
                    }
                }
                Ok(m)
            },
            Err(e) => Err(e),
        }
    }
}

impl<I: WriteAt> WriteAt for Slice<I> {
    /// How many bytes the wrapped resource accepts at the translated
    /// address, of the part of the transfer that the boundary lets through.
    open spec fn write_count(&self, pos: int, count: int) -> int {
        self.io.write_count(
            sat_add(self.offset as int, pos),
            min(count, avail_of(self.size as int, pos)),
        )
    }

    proof fn write_count_bounded(&self, pos: int, count: int) {
        self.io.write_count_bounded(
            sat_add(self.offset as int, pos),
            min(count, avail_of(self.size as int, pos)),
        );
    }

    /// Beyond the window form the trait states, a write through a slice
    /// leaves `offset` and `size` untouched, reports no more bytes than the
    /// boundary lets through, and relates the wrapped resource itself to its
    /// old value: the write lands at the translated address with the clipped
    /// prefix of `buf`, bytes beyond the boundary are never written
    /// anywhere, and a failed write leaves the wrapped contents as they
    /// were.
    fn write_at(&mut self, pos: u64, buf: &Vec<u8>) -> (r: Result<usize, IoError>)
        ensures
            final(self).offset == old(self).offset,
            final(self).size == old(self).size,
            match r {
                Ok(n) => {
                    &&& n as int <= min(
                        buf@.len() as int,
                        avail_of(old(self).size as int, pos as int),
                    )
                    &&& write_outcome(
                        old(self).io.contents(),
                        final(self).io.contents(),
                        sat_add(old(self).offset as int, pos as int),
                        buf@.take(
                            min(buf@.len() as int, avail_of(old(self).size as int, pos as int)),
                        ),
                        n as int,
                    )
                    &&& (old(self).io.exact() ==> {
                        &&& n as int == old(self).io.write_count(
                            sat_add(old(self).offset as int, pos as int),
                            min(buf@.len() as int, avail_of(old(self).size as int, pos as int)),
                        )
                        &&& final(self).io.contents() == overwrite(
                            old(self).io.contents(),
                            sat_add(old(self).offset as int, pos as int),
                            buf@.take(n as int),
                        )
                    })
                },
                Err(_) => final(self).io.contents() == old(self).io.contents(),
            },
    {
        let count = self.avail(pos, buf.len());
        let target = self.translate(pos);
        let mut tmp: Vec<u8> = Vec::new();
        let mut i: usize = 0;
        while i < count
            invariant
                i <= count,
                count <= buf@.len(),
                tmp@.len() == i,
                forall|j: int| 0 <= j < i ==> tmp@[j] == buf@[j],
            decreases count - i,
        {
            let b: u8 = buf[i];
            tmp.push(b);
            i = i + 1;
        }
        let ghost old_b = self.io.contents();
        let ghost old_w = self.contents();
        match self.io.write_at(target, &tmp) {
            Ok(m) => {
                proof {
                    assert(tmp@ =~= buf@.take(count as int));
                    let new_b = self.io.contents();
                    let new_w = self.contents();
                    if m == 0 {
                        assert(new_b =~= old_b);
                        assert(write_outcome(old_w, new_w, pos as int, buf@, 0));
                    } else {
                        assert(target as int == self.offset + pos);
                        assert(m as int <= avail_of(self.size as int, pos as int));
                        lemma_window_write(
                            old_b,
                            new_b,
                            self.offset as int,
                            self.size as int,
                            pos as int,
                            tmp@,
                            m as int,
                        );
                        assert(write_outcome(old_w, new_w, pos as int, buf@, m as int));
                    }
                    if old(self).io.exact() {
                        assert(tmp@.take(m as int) =~= buf@.take(m as int));
                        if m == 0 {
                            assert(new_w == overwrite(old_w, pos as int, buf@.take(0)));
                        } else {
                            lemma_overwrite_window(
                                old_b,
                                self.offset as int,
                                self.size as int,
                                pos as int,
                                buf@.take(m as int),
                            );
                        }
                    }
                }
                Ok(m)
            },
            Err(e) => Err(e),
        }
    }

    /// Beyond the window form the trait states, a flush through a slice
    /// leaves `offset` and `size` untouched and the wrapped resource's own
    /// contents as they were; the wrapped flush's result is returned.
    fn flush(&mut self) -> (r: Result<(), IoError>)
        ensures
            final(self).offset == old(self).offset,
            final(self).size == old(self).size,
            final(self).io.contents() == old(self).io.contents(),
    {
        self.io.flush()
    }
}

/// Slice containment: a slice over the range `[a, b)` of a resource that
/// holds at least `b` bytes shows nothing at or past its boundary `b - a`,
/// and below the boundary a read of `count` bytes at `pos` sees exactly the
/// next `min(count, (b - a) - pos)` bytes of the wrapped resource starting
/// at `a + pos`.
pub proof fn lemma_slice_containment(base: Seq<u8>, a: u64, b: u64, pos: u64, count: int)
    requires
        a <= b,
        b as int <= base.len(),
        0 <= count,
    ensures
        ({
            let w = read_from(base, a as int, (b - a) as int);
            &&& (pos >= b - a ==> read_from(w, pos as int, count).len() == 0)
            &&& (pos < b - a ==> read_from(w, pos as int, count) == base.subrange(
                a + pos,
                a + pos + min(count, b - a - pos),
            ))
        }),
{
    lemma_read_from_composes(base, a as int, (b - a) as int, pos as int, count);
    let k = min(count, avail_of((b - a) as int, pos as int));
    if pos < b - a {
        assert(read_from(base, a + pos, k) =~= base.subrange(a + pos, a + pos + k));
    }
}

/// An unbounded slice reports no size, and its own boundary never clips a
/// read: reading the slice at any offset returns exactly what reading the
/// wrapped resource at the translated offset returns, so only the wrapped
/// resource's extent limits the bytes.
pub proof fn lemma_unbounded_slice<I: PositionedIo>(s: Slice<I>, pos: u64, count: int)
    requires
        s.size == u64::MAX,
        s.io.contents().len() <= u64::MAX,
        0 <= count,
    ensures
        s.size_spec() is None,
        read_from(s.contents(), pos as int, count) == read_from(
            s.io.contents(),
            s.offset + pos,
            count,
        ),
{
    lemma_read_from_composes(s.io.contents(), s.offset as int, s.size as int, pos as int, count);
    let k = min(count, avail_of(s.size as int, pos as int));
    assert(read_from(s.io.contents(), s.offset + pos, k) =~= read_from(
        s.io.contents(),
        s.offset + pos,
        count,
    ));
}

impl<I: PositionedIo> Size for Slice<I> {
    /// The fixed size the slice was constructed with, or `None` for the
    /// unbounded sentinel. A slice never asks the wrapped resource for its
    /// size: its own boundary was fixed at construction.
    open spec fn size_spec(&self) -> Option<u64> {
        if self.size == u64::MAX {
            None
        } else {
            Some(self.size)
        }
    }

    fn size(&self) -> (r: Result<Option<u64>, IoError>)
        ensures
            r matches Ok(s) && s == self.size_spec(),
    {
        if self.size == u64::MAX {
            Ok(None)
        } else {
            Ok(Some(self.size))
        }
    }
}

} // verus!
