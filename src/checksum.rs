//! Fletcher-16 checksum over a byte stream, used to detect desyncs between peers.

use vstd::prelude::*;

verus! {

/// Modulus of both running sums.
pub const FLETCHER_MODULUS: u16 = 255;

/// The two running sums after consuming every byte of `s`.
pub open spec fn fletcher_sums(s: Seq<u8>) -> (int, int)
    decreases s.len(),
{
    if s.len() == 0 {
        (0, 0)
    } else {
        let prev = fletcher_sums(s.drop_last());
        let sum1 = (prev.0 + s.last() as int) % 255;
        (sum1, (prev.1 + sum1) % 255)
    }
}

/// The checksum of `s`: the second sum in the high byte, the first in the low byte.
pub open spec fn fletcher16_spec(s: Seq<u8>) -> u16 {
    (fletcher_sums(s).1 * 256 + fletcher_sums(s).0) as u16
}

/// Plain sum of all bytes.
pub open spec fn byte_sum(s: Seq<u8>) -> int
    decreases s.len(),
{
    if s.len() == 0 {
        0
    } else {
        byte_sum(s.drop_last()) + s.last() as int
    }
}

pub proof fn lemma_sums_in_range(s: Seq<u8>)
    ensures
        0 <= fletcher_sums(s).0 < 255,
        0 <= fletcher_sums(s).1 < 255,
    decreases s.len(),
{
    if s.len() > 0 {
        lemma_sums_in_range(s.drop_last());
    }
}

/// The first running sum is the byte sum reduced modulo 255.
pub proof fn lemma_first_sum_is_byte_sum(s: Seq<u8>)
    ensures
        fletcher_sums(s).0 == byte_sum(s) % 255,
    decreases s.len(),
{
    if s.len() > 0 {
        lemma_first_sum_is_byte_sum(s.drop_last());
        let a = byte_sum(s.drop_last());
        let b = s.last() as int;
        assert((a % 255 + b) % 255 == (a + b) % 255) by (nonlinear_arith);
    }
}

/// Replacing one byte changes the byte sum by the difference of the two values.
pub proof fn lemma_byte_sum_update(s: Seq<u8>, i: int, v: u8)
    requires
        0 <= i < s.len(),
    ensures
        byte_sum(s.update(i, v)) == byte_sum(s) - s[i] as int + v as int,
    decreases s.len(),
{
    let t = s.update(i, v);
    if i == s.len() - 1 {
        assert(t.drop_last() =~= s.drop_last());
    } else {
        lemma_byte_sum_update(s.drop_last(), i, v);
        assert(t.drop_last() =~= s.drop_last().update(i, v));
    }
}

proof fn lemma_flip_distance(x: u8, k: u8)
    requires
        k < 8,
    ensures
        (x ^ (1u8 << k)) == x + (1u8 << k) || (x ^ (1u8 << k)) == x - (1u8 << k),
        1 <= (1u8 << k) <= 128,
{
    assert((x ^ (1u8 << k)) == x + (1u8 << k) || (x ^ (1u8 << k)) == x - (1u8 << k))
        by (bit_vector)
        requires
            k < 8,
    ;
    assert(1 <= (1u8 << k) <= 128) by (bit_vector)
        requires
            k < 8,
    ;
}

/// Flipping any single bit of any byte of a buffer changes its checksum.
pub proof fn lemma_bit_flip_changes_checksum(s: Seq<u8>, i: int, k: u8)
    requires
        0 <= i < s.len(),
        k < 8,
    ensures
        fletcher16_spec(s.update(i, s[i] ^ (1u8 << k))) != fletcher16_spec(s),
{
    let t = s.update(i, s[i] ^ (1u8 << k));
    lemma_flip_distance(s[i], k);
    lemma_byte_sum_update(s, i, s[i] ^ (1u8 << k));
    lemma_first_sum_is_byte_sum(s);
    lemma_first_sum_is_byte_sum(t);
    lemma_sums_in_range(s);
    lemma_sums_in_range(t);
    let a = byte_sum(s);
    let d = byte_sum(t) - a;
    assert(1 <= d <= 128 || -128 <= d <= -1);
    assert((a + d) % 255 != a % 255) by (nonlinear_arith)
        requires
            1 <= d <= 128 || -128 <= d <= -1,
    ;
    assert(fletcher_sums(t).0 != fletcher_sums(s).0);
    let (p1, p2) = fletcher_sums(s);
    let (q1, q2) = fletcher_sums(t);
    assert(((p2 * 256 + p1) as u16) as int == p2 * 256 + p1);
    assert(((q2 * 256 + q1) as u16) as int == q2 * 256 + q1);
    assert(p2 * 256 + p1 != q2 * 256 + q1) by (nonlinear_arith)
        requires
            p1 != q1,
            0 <= p1 < 255,
            0 <= q1 < 255,
            0 <= p2 < 255,
            0 <= q2 < 255,
    ;
}

/// The checksum of the empty buffer is zero.
pub proof fn lemma_empty_checksum()
    ensures
        fletcher16_spec(Seq::<u8>::empty()) == 0,
{
}

proof fn lemma_combine(hi: u16, lo: u16)
    requires
        hi < 256,
        lo < 256,
    ensures
        (hi << 8) | lo == hi * 256 + lo,
{
    assert((hi << 8) | lo == hi * 256 + lo) by (bit_vector)
        requires
            hi < 256,
            lo < 256,
    ;
}

/// Computes the Fletcher-16 checksum of `data`.
pub fn fletcher16(data: &[u8]) -> (r: u16)
    ensures
        r == fletcher16_spec(data@),
{
    let mut sum1: u16 = 0;
    let mut sum2: u16 = 0;
    let mut index: usize = 0;
    while index < data.len()
        invariant
            0 <= index <= data@.len(),
            sum1 as int == fletcher_sums(data@.take(index as int)).0,
            sum2 as int == fletcher_sums(data@.take(index as int)).1,
        decreases data@.len() - index,
    {
        proof {
            lemma_sums_in_range(data@.take(index as int));
            assert(data@.take(index as int + 1).drop_last() =~= data@.take(index as int));
        }
        sum1 = (sum1 + data[index] as u16) % FLETCHER_MODULUS;
        sum2 = (sum2 + sum1) % FLETCHER_MODULUS;
        index = index + 1;
    }
    proof {
        assert(data@.take(data@.len() as int) =~= data@);
        lemma_sums_in_range(data@);
        lemma_combine(sum2, sum1);
    }
    (sum2 << 8) | sum1
}

} // verus!
