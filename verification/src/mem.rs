//! In-memory backing resources: a growable byte buffer with full positioned
//! access, and a size-unaware variant that can read but not report a length.

use crate::error::IoError;
use crate::model::avail_of;
use crate::model::overwrite;
use crate::model::write_outcome;
use crate::traits::PositionedIo;
use crate::traits::ReadAt;
use crate::traits::Size;
use crate::traits::WriteAt;
use vstd::math::max;
use vstd::math::min;
use vstd::prelude::*;

verus! {

/// A fresh buffer of `n` zero bytes, used as scratch space for clipped
/// transfers.
pub(crate) fn zeroed(n: usize) -> (v: Vec<u8>)
    ensures
        v@.len() == n,
        forall|i: int| 0 <= i < n ==> v@[i] == 0u8,
{
    let mut v: Vec<u8> = Vec::new();
    while v.len() < n
        invariant
            v@.len() <= n,
            forall|i: int| 0 <= i < v@.len() ==> v@[i] == 0u8,
        decreases n - v@.len(),
    {
        v.push(0u8);
    }
    v
}

impl PositionedIo for Vec<u8> {
    open spec fn contents(&self) -> Seq<u8> {
        self@
    }

    open spec fn exact(&self) -> bool {
        true
    }
}

impl ReadAt for Vec<u8> {
    fn read_at(&self, pos: u64, buf: &mut Vec<u8>) -> (r: Result<usize, IoError>) {
        let len: usize = self.len();
        if pos >= len as u64 {
            return Ok(0);
        }
        let start: usize = pos as usize;
        let avail: usize = len - start;
        let n: usize = if buf.len() < avail {
            buf.len()
        } else {
            avail
        };
        let mut i: usize = 0;
        while i < n
            invariant
                i <= n,
                n <= buf@.len(),
                start + n <= self@.len(),
                start + n <= usize::MAX,
                buf@.len() == old(buf)@.len(),
                forall|j: int| 0 <= j < i ==> buf@[j] == self@[start + j],
                forall|j: int| i <= j < buf@.len() ==> buf@[j] == old(buf)@[j],
            decreases n - i,
        {
            let b: u8 = self[start + i];
            buf[i] = b;
            i = i + 1;
        }
        Ok(n)
    }
}

impl WriteAt for Vec<u8> {
    open spec fn write_count(&self, pos: int, count: int) -> int {
        if pos + count <= usize::MAX {
            count
        } else {
            0
        }
    }

    proof fn write_count_bounded(&self, pos: int, count: int) {
    }

    fn write_at(&mut self, pos: u64, buf: &Vec<u8>) -> (r: Result<usize, IoError>) {
        if buf.len() == 0 {
            return Ok(0);
        }
        if pos > usize::MAX as u64 - buf.len() as u64 {
            // The write cannot be addressed in memory: accept no bytes.
            assert(self@ == overwrite(old(self)@, pos as int, buf@.take(0)));
            return Ok(0);
        }
        let start: usize = pos as usize;
        while self.len() < start
            invariant
                old(self)@.len() <= self@.len() <= max(old(self)@.len() as int, start as int),
                forall|j: int| 0 <= j < old(self)@.len() ==> self@[j] == old(self)@[j],
                forall|j: int| old(self)@.len() <= j < self@.len() ==> self@[j] == 0u8,
            decreases start - self@.len(),
        {
            self.push(0u8);
        }
        let ghost padded: Seq<u8> = self@;
        let mut i: usize = 0;
        while i < buf.len()
            invariant
                i <= buf@.len(),
                start + buf@.len() <= usize::MAX,
                start <= padded.len(),
                old(self)@.len() <= padded.len() <= max(old(self)@.len() as int, start as int),
                forall|j: int| 0 <= j < old(self)@.len() ==> padded[j] == old(self)@[j],
                forall|j: int| old(self)@.len() <= j < padded.len() ==> padded[j] == 0u8,
                self@.len() == max(padded.len() as int, start + i),
                forall|j: int| start <= j < start + i ==> self@[j] == buf@[j - start],
                forall|j: int| 0 <= j < start ==> self@[j] == padded[j],
                forall|j: int| start + i <= j < padded.len() ==> self@[j] == padded[j],
            decreases buf@.len() - i,
        {
            let b: u8 = buf[i];
            if start + i < self.len() {
                self[start + i] = b;
            } else {
                self.push(b);
            }
            i = i + 1;
        }
        proof {
            let target = overwrite(old(self)@, pos as int, buf@.take(buf@.len() as int));
            assert(buf@.take(buf@.len() as int) =~= buf@);
            assert(padded.len() == max(old(self)@.len() as int, start as int));
            assert(self@.len() == target.len());
            assert forall|idx: int| 0 <= idx < self@.len() implies self@[idx] == target[idx] by {
                if pos <= idx < pos + buf@.len() {
                    assert(self@[idx] == buf@[idx - pos as int]);
                } else if idx < old(self)@.len() {
                    assert(self@[idx] == padded[idx]);
                } else {
                    assert(self@[idx] == padded[idx]);
                    assert(padded[idx] == 0u8);
                }
            }
            assert(self@ =~= target);
            assert(write_outcome(old(self)@, self@, pos as int, buf@, buf@.len() as int));
        }
        Ok(buf.len())
    }

    fn flush(&mut self) -> (r: Result<(), IoError>) {
        Ok(())
    }
}

impl Size for Vec<u8> {
    open spec fn size_spec(&self) -> Option<u64> {
        Some(self@.len() as u64)
    }

    fn size(&self) -> (r: Result<Option<u64>, IoError>) {
        Ok(Some(self.len() as u64))
    }
}

/// An in-memory resource that cannot report its size, as a network-backed
/// stream might not: reads behave as on the underlying buffer, but the size
/// query answers that no definite size can be computed.
#[derive(Debug, Clone)]
pub struct StreamMem {
    /// The bytes the stream would deliver.
    pub data: Vec<u8>,
}

impl PositionedIo for StreamMem {
    open spec fn contents(&self) -> Seq<u8> {
        self.data@
    }

    open spec fn exact(&self) -> bool {
        true
    }
}

impl ReadAt for StreamMem {
    fn read_at(&self, pos: u64, buf: &mut Vec<u8>) -> (r: Result<usize, IoError>) {
        self.data.read_at(pos, buf)
    }
}

impl Size for StreamMem {
    open spec fn size_spec(&self) -> Option<u64> {
        None
    }

    fn size(&self) -> (r: Result<Option<u64>, IoError>) {
        Ok(None)
    }
}

} // verus!
