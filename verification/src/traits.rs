//! The capability contract of positioned access: reporting a total size,
//! reading at an offset, and writing at an offset with an explicit flush.
//! A backing resource implements any combination of the three. No operation
//! keeps or moves a current position: every call is self-contained, so
//! concurrent readers at different offsets need no lock.

use crate::error::IoError;
use crate::mem::zeroed;
use crate::model::avail_of;
use crate::model::lemma_overwrite_append;
use crate::model::lemma_write_outcome_chain;
use crate::model::overwrite;
use crate::model::write_outcome;
use vstd::math::min;
use vstd::prelude::*;

verus! {

/// The mathematical view shared by the positioned-access capabilities.
///
/// `contents` is the byte sequence the resource holds. `exact` marks a
/// resource whose operations are total and deterministic: they never fail,
/// reads return every byte available in the requested range, writes place
/// every byte the resource can address and fill a gap before the written
/// range with zeros, and the size report always arrives. An in-memory buffer
/// is exact; a resource backed by a fallible medium is not.
pub trait PositionedIo {
    /// The bytes the resource holds, as the contracts speak of them.
    spec fn contents(&self) -> Seq<u8>;

    /// Whether the resource's operations are total and deterministic.
    spec fn exact(&self) -> bool;
}

/// The capability of reading bytes at an explicit offset.
pub trait ReadAt: PositionedIo {
    /// Copies up to `buf.len()` bytes starting at offset `pos` of the
    /// resource into the front of `buf`, returning how many bytes were
    /// copied. A short read is a successful outcome, not an error; reading
    /// at or past the end of the contents returns zero bytes. The bytes of
    /// `buf` beyond the returned count keep their old values, and the call
    /// moves no position any other caller could observe.
    fn read_at(&self, pos: u64, buf: &mut Vec<u8>) -> (r: Result<usize, IoError>)
        ensures
            final(buf)@.len() == old(buf)@.len(),
            match r {
                Ok(n) => {
                    &&& n <= old(buf)@.len()
                    &&& n as int <= avail_of(self.contents().len() as int, pos as int)
                    &&& pos + n <= u64::MAX
                    &&& (forall|i: int|
                        0 <= i < n ==> final(buf)@[i] == self.contents()[pos as int + i])
                    &&& (forall|i: int|
                        n <= i < old(buf)@.len() ==> final(buf)@[i] == old(buf)@[i])
                    &&& (self.exact() ==> n as int == min(
                        old(buf)@.len() as int,
                        avail_of(self.contents().len() as int, pos as int),
                    ))
                },
                Err(_) => final(buf)@ == old(buf)@,
            },
            self.exact() ==> r matches Ok(_),
    ;
}

/// The capability of writing bytes at an explicit offset, with a flush that
/// commits buffered writes.
pub trait WriteAt: PositionedIo {
    /// How many bytes a write of `count` bytes at offset `pos` places when
    /// the resource is exact: the whole count where the resource can address
    /// it, less where a boundary or the address space cuts it short.
    spec fn write_count(&self, pos: int, count: int) -> int;

    /// A law every implementor proves: a write never places more bytes than
    /// it was offered, and never a negative number of them.
    proof fn write_count_bounded(&self, pos: int, count: int)
        requires
            0 <= count,
        ensures
            0 <= self.write_count(pos, count) <= count,
    ;

    /// Writes up to `buf.len()` bytes starting at offset `pos`, returning
    /// how many bytes were consumed. A short write is a successful outcome
    /// and must be handled by the caller, typically by looping. The call
    /// moves no position any other caller could observe.
    fn write_at(&mut self, pos: u64, buf: &Vec<u8>) -> (r: Result<usize, IoError>)
        ensures
            final(self).exact() == old(self).exact(),
            match r {
                Ok(n) => {
                    &&& pos + n <= u64::MAX
                    &&& write_outcome(
                        old(self).contents(),
                        final(self).contents(),
                        pos as int,
                        buf@,
                        n as int,
                    )
                    &&& (old(self).exact() ==> {
                        &&& n as int == old(self).write_count(pos as int, buf@.len() as int)
                        &&& final(self).contents() == overwrite(
                            old(self).contents(),
                            pos as int,
                            buf@.take(n as int),
                        )
                    })
                },
                Err(_) => final(self).contents() == old(self).contents(),
            },
            old(self).exact() ==> r matches Ok(_),
    ;

    /// Forces any buffered writes to reach durable storage. Callable
    /// independently of any single write; the contents are unchanged.
    fn flush(&mut self) -> (r: Result<(), IoError>)
        ensures
            final(self).contents() == old(self).contents(),
            final(self).exact() == old(self).exact(),
            old(self).exact() ==> r matches Ok(_),
    ;
}

/// The capability of reporting a total size.
pub trait Size: PositionedIo {
    /// The size the resource reports: `Some` of a definite total length, or
    /// `None` when no definite size can be computed.
    spec fn size_spec(&self) -> Option<u64>;

    /// Reports the total addressable size, `None` when the resource cannot
    /// compute one, or an error on a genuine failure while querying.
    fn size(&self) -> (r: Result<Option<u64>, IoError>)
        ensures
            r matches Ok(s) ==> s == self.size_spec(),
            self.exact() ==> r matches Ok(_),
    ;
}

/// Reads repeatedly from `io`, starting at `pos`, until `buf` is completely
/// filled or the end of the data or an error is reached.
///
/// Success means `buf` holds exactly the resource's bytes from `pos` on.
/// Hitting the end of the data before the buffer is full is its own error,
/// an unexpected end, distinct from any failure of the resource itself;
/// a failure of a single read is surfaced unchanged.
pub fn read_exact_at<I: ReadAt>(io: &I, pos: u64, buf: &mut Vec<u8>) -> (r: Result<
    (),
    IoError,
>)
    ensures
        final(buf)@.len() == old(buf)@.len(),
        match r {
            Ok(_) => {
                &&& (old(buf)@.len() > 0 ==> pos + old(buf)@.len() <= io.contents().len())
                &&& (forall|i: int|
                    0 <= i < old(buf)@.len() ==> final(buf)@[i] == io.contents()[pos as int
                        + i])
            },
            Err(e) => io.exact() ==> e == IoError::UnexpectedEof && pos + old(buf)@.len()
                > io.contents().len(),
        },
        io.exact() && pos + old(buf)@.len() <= io.contents().len() ==> r matches Ok(_),
{
    let total = buf.len();
    let mut filled: usize = 0;
    while filled < total
        invariant
            filled <= total,
            total == buf@.len(),
            buf@.len() == old(buf)@.len(),
            pos + filled <= u64::MAX,
            filled > 0 ==> pos + filled <= io.contents().len(),
            forall|j: int| 0 <= j < filled ==> buf@[j] == io.contents()[pos as int + j],
            forall|j: int| filled <= j < buf@.len() ==> buf@[j] == old(buf)@[j],
        decreases total - filled,
    {
        let mut tmp = zeroed(total - filled);
        let cur: u64 = pos + filled as u64;
        match io.read_at(cur, &mut tmp) {
            Ok(n) => {
                if n == 0 {
                    return Err(IoError::UnexpectedEof);
                }
                let ghost pre = buf@;
                let mut i: usize = 0;
                while i < n
                    invariant
                        i <= n,
                        n <= tmp@.len(),
                        filled + n <= total,
                        total == buf@.len(),
                        buf@.len() == pre.len(),
                        forall|j: int| 0 <= j < filled ==> buf@[j] == pre[j],
                        forall|j: int|
                            filled <= j < filled + i ==> buf@[j] == tmp@[j - filled],
                        forall|j: int|
                            filled + i <= j < buf@.len() ==> buf@[j] == pre[j],
                    decreases n - i,
                {
                    let b: u8 = tmp[i];
                    buf[filled + i] = b;
                    i = i + 1;
                }
                proof {
                    assert forall|j: int|
                        0 <= j < filled + n implies buf@[j] == io.contents()[pos as int
                        + j] by {
                        if j < filled {
                            assert(buf@[j] == pre[j]);
                        } else {
                            assert(buf@[j] == tmp@[j - filled]);
                            assert(tmp@[j - filled] == io.contents()[cur as int + (j
                                - filled)]);
                        }
                    }
                }
                filled = filled + n;
            },
            Err(e) => {
                return Err(e);
            },
        }
    }
    Ok(())
}

/// Writes to `io`, starting at `pos`, looping until every byte of `buf` has
/// been written or an error occurs.
///
/// A write that accepts no bytes while data remains is surfaced as
/// [`IoError::Failed`]; a failure of a single write is surfaced unchanged.
pub fn write_all_at<I: WriteAt>(io: &mut I, pos: u64, buf: &Vec<u8>) -> (r: Result<
    (),
    IoError,
>)
    ensures
        final(io).exact() == old(io).exact(),
        match r {
            Ok(_) => {
                &&& write_outcome(
                    old(io).contents(),
                    final(io).contents(),
                    pos as int,
                    buf@,
                    buf@.len() as int,
                )
                &&& (buf@.len() == 0 ==> final(io).contents() == old(io).contents())
                &&& (old(io).exact() ==> final(io).contents() == overwrite(
                    old(io).contents(),
                    pos as int,
                    buf@,
                ))
            },
            Err(_) => exists|k: int|
                0 <= k <= buf@.len() && write_outcome(
                    old(io).contents(),
                    final(io).contents(),
                    pos as int,
                    buf@,
                    k,
                ),
        },
        old(io).exact() && old(io).write_count(pos as int, buf@.len() as int) == buf@.len()
            ==> r matches Ok(_),
{
    let total = buf.len();
    let mut written: usize = 0;
    proof {
        assert(write_outcome(old(io).contents(), io.contents(), pos as int, buf@, 0));
    }
    while written < total
        invariant
            written <= total,
            total == buf@.len(),
            pos + written <= u64::MAX,
            io.exact() == old(io).exact(),
            write_outcome(old(io).contents(), io.contents(), pos as int, buf@, written as int),
            old(io).exact() ==> io.contents() == overwrite(
                old(io).contents(),
                pos as int,
                buf@.take(written as int),
            ),
            old(io).exact() && old(io).write_count(pos as int, total as int) == total ==> (
            written == total || (written == 0 && io == old(io))),
        decreases total - written,
    {
        let mut tmp: Vec<u8> = Vec::new();
        let mut i: usize = written;
        while i < total
            invariant
                written <= i <= total,
                total == buf@.len(),
                tmp@.len() == i - written,
                forall|j: int| 0 <= j < i - written ==> tmp@[j] == buf@[written + j],
            decreases total - i,
        {
            let b: u8 = buf[i];
            tmp.push(b);
            i = i + 1;
        }
        proof {
            assert(tmp@ =~= buf@.skip(written as int));
        }
        let cur: u64 = pos + written as u64;
        let ghost mid = io.contents();
        match io.write_at(cur, &tmp) {
            Ok(n) => {
                if n == 0 {
                    proof {
                        assert(io.contents() =~= mid);
                        assert(write_outcome(
                            old(io).contents(),
                            io.contents(),
                            pos as int,
                            buf@,
                            written as int,
                        ));
                    }
                    return Err(IoError::Failed);
                }
                proof {
                    lemma_write_outcome_chain(
                        old(io).contents(),
                        mid,
                        io.contents(),
                        pos as int,
                        buf@,
                        written as int,
                        n as int,
                    );
                    if old(io).exact() {
                        lemma_overwrite_append(
                            old(io).contents(),
                            pos as int,
                            buf@.take(written as int),
                            tmp@.take(n as int),
                        );
                        assert(buf@.take(written as int) + tmp@.take(n as int) =~= buf@.take(
                            written + n,
                        ));
                    }
                }
                written = written + n;
            },
            Err(e) => {
                proof {
                    assert(write_outcome(
                        old(io).contents(),
                        io.contents(),
                        pos as int,
                        buf@,
                        written as int,
                    ));
                }
                return Err(e);
            },
        }
    }
    proof {
        assert(buf@.take(total as int) =~= buf@);
    }
    Ok(())
}

} // verus!
