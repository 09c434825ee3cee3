//! The mathematical model of positioned access: byte contents as a `Seq<u8>`,
//! what a positioned read returns, and what a positioned write leaves behind.

use vstd::math::max;
use vstd::math::min;
use vstd::prelude::*;

verus! {

/// The number of bytes available at offset `pos` in contents of length `len`:
/// `len - pos`, or zero when `pos` is at or past the end.
pub open spec fn avail_of(len: int, pos: int) -> int {
    if pos < len {
        len - pos
    } else {
        0
    }
}

/// The sum `a + b`, saturated at the largest `u64` offset, as the address
/// translation of a slice computes it.
pub open spec fn sat_add(a: int, b: int) -> int {
    if a + b > u64::MAX {
        u64::MAX as int
    } else {
        a + b
    }
}

/// The bytes a positioned read of up to `count` bytes at offset `pos` can
/// take from contents `s`: the bytes of `s` from `pos` to `pos + count`,
/// clipped to the end of `s`. Reading at or past the end yields nothing.
pub open spec fn read_from(s: Seq<u8>, pos: int, count: int) -> Seq<u8>
    recommends
        0 <= pos,
        0 <= count,
{
    s.subrange(min(pos, s.len() as int), min(pos + count, s.len() as int))
}

/// The contents after a positioned write of `data` at offset `pos` into
/// contents `s`: `data` replaces the bytes from `pos` on, the contents grow
/// as needed, and a gap between the old end and `pos` is filled with zeros.
/// Writing no bytes leaves the contents unchanged.
pub open spec fn overwrite(s: Seq<u8>, pos: int, data: Seq<u8>) -> Seq<u8>
    recommends
        0 <= pos,
{
    if data.len() == 0 {
        s
    } else {
        Seq::new(
            max(s.len() as int, pos + data.len()) as nat,
            |i: int|
                if pos <= i < pos + data.len() {
                    data[i - pos]
                } else if i < s.len() {
                    s[i]
                } else {
                    0u8
                },
        )
    }
}

/// What every successful positioned write reports: `n` of the `data.len()`
/// offered bytes were placed at `pos`, bytes outside the written range that
/// existed before still hold their old values, and the contents end exactly
/// where the old end or the written range ends, whichever is farther. What a
/// gap between the old end and `pos` holds is left to the resource.
pub open spec fn write_outcome(
    old_c: Seq<u8>,
    new_c: Seq<u8>,
    pos: int,
    data: Seq<u8>,
    n: int,
) -> bool {
    &&& 0 <= n <= data.len()
    &&& new_c.len() == max(old_c.len() as int, if n == 0 { 0 } else { pos + n })
    &&& (forall|i: int| 0 <= i < n ==> new_c[pos + i] == data[i])
    &&& (forall|i: int|
        0 <= i < old_c.len() && !(pos <= i < pos + n) ==> new_c[i] == old_c[i])
}

/// A positioned read as a state transformer: the bytes it returns, paired
/// with the resource contents it leaves behind. A read leaves the contents
/// exactly as they were.
pub open spec fn read_step(s: Seq<u8>, pos: int, count: int) -> (Seq<u8>, Seq<u8>)
    recommends
        0 <= pos,
        0 <= count,
{
    (read_from(s, pos, count), s)
}

/// Positioned reads on a shared resource do not interfere: a read takes the
/// resource by shared reference and leaves its contents unchanged, so two
/// reads over non-overlapping ranges return the same bytes whether they are
/// issued one after the other in either order.
pub proof fn lemma_reads_commute(s: Seq<u8>, pos_a: int, len_a: int, pos_b: int, len_b: int)
    requires
        0 <= pos_a,
        0 <= len_a,
        0 <= pos_b,
        0 <= len_b,
        pos_a + len_a <= pos_b || pos_b + len_b <= pos_a,
    ensures
        ({
            let (bytes_a, after_a) = read_step(s, pos_a, len_a);
            let (bytes_b_second, _) = read_step(after_a, pos_b, len_b);
            let (bytes_b, after_b) = read_step(s, pos_b, len_b);
            let (bytes_a_second, _) = read_step(after_b, pos_a, len_a);
            bytes_a == bytes_a_second && bytes_b == bytes_b_second
        }),
{
}

/// Reading through a window composes: taking a window of `s` at `o1` of
/// length `s1`, and then reading within it at `o2`, returns the same bytes
/// as one read of `s` at the composed offset `o1 + o2`, for the count that
/// survives the outer window's boundary.
pub proof fn lemma_read_from_composes(s: Seq<u8>, o1: int, s1: int, o2: int, s2: int)
    requires
        0 <= o1,
        0 <= s1,
        0 <= o2,
        0 <= s2,
    ensures
        read_from(read_from(s, o1, s1), o2, s2) == read_from(
            s,
            o1 + o2,
            min(s2, avail_of(s1, o2)),
        ),
{
    let w1 = read_from(s, o1, s1);
    let k = min(s2, avail_of(s1, o2));
    assert(read_from(w1, o2, s2) =~= read_from(s, o1 + o2, k));
}

/// A write seen through a window: when a write of `data` lands at `offset +
/// pos` of the base and the written range stays within the window of `size`
/// bytes at `offset`, the window shows the same successful write outcome at
/// `pos` that the base shows at `offset + pos`.
pub proof fn lemma_window_write(
    old_b: Seq<u8>,
    new_b: Seq<u8>,
    offset: int,
    size: int,
    pos: int,
    data: Seq<u8>,
    n: int,
)
    requires
        0 <= offset,
        0 <= size,
        0 <= pos,
        pos + n <= size,
        write_outcome(old_b, new_b, offset + pos, data, n),
    ensures
        write_outcome(
            read_from(old_b, offset, size),
            read_from(new_b, offset, size),
            pos,
            data,
            n,
        ),
{
    let old_w = read_from(old_b, offset, size);
    let new_w = read_from(new_b, offset, size);
    if n == 0 {
        assert(new_b =~= old_b);
        assert(new_w == old_w);
    } else {
        assert(new_b.len() == max(old_b.len() as int, offset + pos + n));
        assert(new_w.len() == max(old_w.len() as int, pos + n));
        assert forall|i: int| 0 <= i < n implies new_w[pos + i] == data[i] by {
            assert(new_w[pos + i] == new_b[offset + pos + i]);
        }
        assert forall|i: int|
            0 <= i < old_w.len() && !(pos <= i < pos + n) implies new_w[i] == old_w[i] by {
            assert(old_w[i] == old_b[offset + i]);
            assert(new_w[i] == new_b[offset + i]);
        }
    }
}

/// An exact write seen through a window: replacing bytes at `offset + pos`
/// of the base replaces the same bytes at `pos` of the window, as long as
/// the written range stays within the window.
pub proof fn lemma_overwrite_window(
    base: Seq<u8>,
    offset: int,
    size: int,
    pos: int,
    data: Seq<u8>,
)
    requires
        0 <= offset,
        0 <= size,
        0 <= pos,
        pos + data.len() <= size,
    ensures
        read_from(overwrite(base, offset + pos, data), offset, size) == overwrite(
            read_from(base, offset, size),
            pos,
            data,
        ),
{
    if data.len() == 0 {
    } else {
        let new_b = overwrite(base, offset + pos, data);
        let w = read_from(base, offset, size);
        let lhs = read_from(new_b, offset, size);
        let rhs = overwrite(w, pos, data);
        assert(new_b.len() == max(base.len() as int, offset + pos + data.len()));
        assert(lhs.len() == rhs.len());
        assert forall|i: int| 0 <= i < lhs.len() implies lhs[i] == rhs[i] by {
            assert(lhs[i] == new_b[offset + i]);
            if pos <= i < pos + data.len() {
            } else if i < w.len() {
                assert(w[i] == base[offset + i]);
            }
        }
        assert(lhs =~= rhs);
    }
}

/// Two successful write outcomes in a row make one: placing the first `k`
/// bytes of `data` at `pos` and then `m` bytes of the rest right behind them
/// is one placement of `k + m` bytes of `data` at `pos`.
pub proof fn lemma_write_outcome_chain(
    c0: Seq<u8>,
    c1: Seq<u8>,
    c2: Seq<u8>,
    pos: int,
    data: Seq<u8>,
    k: int,
    m: int,
)
    requires
        0 <= pos,
        0 <= k,
        0 <= m,
        k + m <= data.len(),
        write_outcome(c0, c1, pos, data, k),
        write_outcome(c1, c2, pos + k, data.skip(k), m),
    ensures
        write_outcome(c0, c2, pos, data, k + m),
{
    if m == 0 {
        assert(c2 =~= c1);
    } else {
        assert(forall|i: int| 0 <= i < m ==> c2[pos + k + i] == data.skip(k)[i]);
        assert forall|i: int| 0 <= i < k + m implies c2[pos + i] == data[i] by {
            if i < k {
                assert(c1[pos + i] == data[i]);
                assert(c2[pos + i] == c1[pos + i]);
            } else {
                assert(c2[pos + k + (i - k)] == data.skip(k)[i - k]);
            }
        }
    }
}

/// Two adjacent exact writes are one: writing `d1` at `pos` and then `d2`
/// right behind it leaves the same contents as writing their concatenation
/// at `pos`.
pub proof fn lemma_overwrite_append(s: Seq<u8>, pos: int, d1: Seq<u8>, d2: Seq<u8>)
    requires
        0 <= pos,
    ensures
        overwrite(overwrite(s, pos, d1), pos + d1.len(), d2) == overwrite(s, pos, d1 + d2),
{
    if d1.len() == 0 {
        assert(d1 + d2 =~= d2);
    } else if d2.len() == 0 {
        assert(d1 + d2 =~= d1);
    } else {
        let mid = overwrite(s, pos, d1);
        let lhs = overwrite(mid, pos + d1.len(), d2);
        let rhs = overwrite(s, pos, d1 + d2);
        assert(lhs.len() == rhs.len());
        assert(lhs =~= rhs);
    }
}

/// Writing bytes and then reading the same range back returns exactly the
/// written bytes: the round trip through a resource loses nothing.
pub proof fn lemma_write_then_read(s: Seq<u8>, pos: int, data: Seq<u8>)
    requires
        0 <= pos,
    ensures
        read_from(overwrite(s, pos, data), pos, data.len() as int) == data,
{
    let w = overwrite(s, pos, data);
    if data.len() == 0 {
        assert(read_from(w, pos, 0) =~= data);
    } else {
        assert(w.len() == max(s.len() as int, pos + data.len()));
        assert(read_from(w, pos, data.len() as int) =~= data);
    }
}

} // verus!
