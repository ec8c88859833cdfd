//! Bit-counting engine: specification of bit weight (population count) for
//! bytes, words and byte sequences, verified popcount routines, and the
//! partition arithmetic that splits a buffer into word-sized and byte-sized
//! regions.

use vstd::prelude::*;

verus! {

/// Number of set bits in one byte.
pub open spec fn byte_weight(b: u8) -> int {
    ((b >> 0) & 1) + ((b >> 1) & 1) + ((b >> 2) & 1) + ((b >> 3) & 1) + ((b >> 4) & 1) + ((b >> 5)
        & 1) + ((b >> 6) & 1) + ((b >> 7) & 1)
}

/// Number of set bits in a 64-bit word, as the sum over its eight bytes.
pub open spec fn word_weight(w: u64) -> int {
    byte_weight((w & 0xff) as u8) + byte_weight(((w >> 8) & 0xff) as u8) + byte_weight(
        ((w >> 16) & 0xff) as u8,
    ) + byte_weight(((w >> 24) & 0xff) as u8) + byte_weight(((w >> 32) & 0xff) as u8) + byte_weight(
        ((w >> 40) & 0xff) as u8,
    ) + byte_weight(((w >> 48) & 0xff) as u8) + byte_weight(((w >> 56) & 0xff) as u8)
}

/// Number of set bits in a byte sequence.
pub open spec fn weight_seq(s: Seq<u8>) -> int
    decreases s.len(),
{
    if s.len() == 0 {
        0
    } else {
        weight_seq(s.drop_last()) + byte_weight(s.last())
    }
}

/// Bytewise exclusive or of two equal-length byte sequences.
pub open spec fn xor_seq(x: Seq<u8>, y: Seq<u8>) -> Seq<u8>
    recommends
        x.len() == y.len(),
{
    Seq::new(x.len(), |i: int| x[i] ^ y[i])
}

/// Hamming distance between two equal-length byte sequences: the weight of
/// their bitwise exclusive or.
pub open spec fn dist_seq(x: Seq<u8>, y: Seq<u8>) -> int
    recommends
        x.len() == y.len(),
{
    weight_seq(xor_seq(x, y))
}

/// The weight of a sequence is between 0 and 8 bits per byte.
pub proof fn lemma_weight_bound(s: Seq<u8>)
    ensures
        0 <= weight_seq(s) <= 8 * s.len(),
    decreases s.len(),
{
    if s.len() > 0 {
        let b = s.last();
        assert(0 <= byte_weight(b) <= 8) by (bit_vector);
        lemma_weight_bound(s.drop_last());
    }
}

/// Taking one more byte adds that byte's weight.
pub proof fn lemma_weight_take_succ(s: Seq<u8>, i: int)
    requires
        0 <= i < s.len(),
    ensures
        weight_seq(s.take(i + 1)) == weight_seq(s.take(i)) + byte_weight(s[i]),
{
    assert(s.take(i + 1).drop_last() =~= s.take(i));
    assert(s.take(i + 1).last() == s[i]);
}

/// Taking eight more bytes adds the weight of those eight bytes.
pub proof fn lemma_weight_take_chunk(s: Seq<u8>, i: int)
    requires
        0 <= i,
        i + 8 <= s.len(),
    ensures
        weight_seq(s.take(i + 8)) == weight_seq(s.take(i)) + byte_weight(s[i]) + byte_weight(
            s[i + 1],
        ) + byte_weight(s[i + 2]) + byte_weight(s[i + 3]) + byte_weight(s[i + 4]) + byte_weight(
            s[i + 5],
        ) + byte_weight(s[i + 6]) + byte_weight(s[i + 7]),
{
    lemma_weight_take_succ(s, i);
    lemma_weight_take_succ(s, i + 1);
    lemma_weight_take_succ(s, i + 2);
    lemma_weight_take_succ(s, i + 3);
    lemma_weight_take_succ(s, i + 4);
    lemma_weight_take_succ(s, i + 5);
    lemma_weight_take_succ(s, i + 6);
    lemma_weight_take_succ(s, i + 7);
}

/// A sequence of zero bytes has weight zero.
pub proof fn lemma_weight_zero(s: Seq<u8>)
    requires
        forall|i: int| 0 <= i < s.len() ==> s[i] == 0u8,
    ensures
        weight_seq(s) == 0,
    decreases s.len(),
{
    if s.len() > 0 {
        assert(byte_weight(0u8) == 0) by (bit_vector);
        lemma_weight_zero(s.drop_last());
    }
}

/// The distance from a sequence to itself is zero.
pub proof fn lemma_dist_self(x: Seq<u8>)
    ensures
        dist_seq(x, x) == 0,
{
    assert forall|i: int| 0 <= i < xor_seq(x, x).len() implies xor_seq(x, x)[i] == 0u8 by {
        let b = x[i];
        assert(b ^ b == 0u8) by (bit_vector);
    }
    lemma_weight_zero(xor_seq(x, x));
}

/// Bytewise conjunction of two equal-length byte sequences.
pub open spec fn and_seq(x: Seq<u8>, y: Seq<u8>) -> Seq<u8>
    recommends
        x.len() == y.len(),
{
    Seq::new(x.len(), |i: int| x[i] & y[i])
}

/// Cross-check identity: the distance between two buffers equals the sum of
/// their weights minus twice the weight of their bitwise conjunction.
pub proof fn lemma_dist_weight_and(x: Seq<u8>, y: Seq<u8>)
    requires
        x.len() == y.len(),
    ensures
        dist_seq(x, y) == weight_seq(x) + weight_seq(y) - 2 * weight_seq(and_seq(x, y)),
    decreases x.len(),
{
    if x.len() > 0 {
        let a = x.last();
        let b = y.last();
        assert(byte_weight(a ^ b) == byte_weight(a) + byte_weight(b) - 2 * byte_weight(
            a & b,
        )) by (bit_vector);
        assert(xor_seq(x, y).drop_last() =~= xor_seq(x.drop_last(), y.drop_last()));
        assert(and_seq(x, y).drop_last() =~= and_seq(x.drop_last(), y.drop_last()));
        assert(xor_seq(x, y).last() == a ^ b);
        assert(and_seq(x, y).last() == a & b);
        lemma_dist_weight_and(x.drop_last(), y.drop_last());
    }
}

/// The distance between two buffers is exactly the weight of their bitwise
/// exclusive or.
pub proof fn lemma_dist_is_xor_weight(x: Seq<u8>, y: Seq<u8>)
    requires
        x.len() == y.len(),
    ensures
        dist_seq(x, y) == weight_seq(xor_seq(x, y)),
{
}

/// The distance between two equal-length sequences is symmetric.
pub proof fn lemma_dist_symmetric(x: Seq<u8>, y: Seq<u8>)
    requires
        x.len() == y.len(),
    ensures
        dist_seq(x, y) == dist_seq(y, x),
{
    assert forall|i: int| 0 <= i < x.len() implies xor_seq(x, y)[i] == xor_seq(y, x)[i] by {
        let a = x[i];
        let b = y[i];
        assert(a ^ b == b ^ a) by (bit_vector);
    }
    assert(xor_seq(x, y) =~= xor_seq(y, x));
}

/// Count the set bits of one byte.
pub fn popcount_byte(b: u8) -> (r: u8)
    ensures
        r as int == byte_weight(b),
        r <= 8,
{
    proof {
        assert(((b >> 0) & 1) + ((b >> 1) & 1) <= 2 && ((b >> 0) & 1) + ((b >> 1) & 1) + ((b >> 2)
            & 1) <= 3 && ((b >> 0) & 1) + ((b >> 1) & 1) + ((b >> 2) & 1) + ((b >> 3) & 1) <= 4 && (
        (b >> 0) & 1) + ((b >> 1) & 1) + ((b >> 2) & 1) + ((b >> 3) & 1) + ((b >> 4) & 1) <= 5 && ((
        b >> 0) & 1) + ((b >> 1) & 1) + ((b >> 2) & 1) + ((b >> 3) & 1) + ((b >> 4) & 1) + ((b >> 5)
            & 1) <= 6 && ((b >> 0) & 1) + ((b >> 1) & 1) + ((b >> 2) & 1) + ((b >> 3) & 1) + ((b
            >> 4) & 1) + ((b >> 5) & 1) + ((b >> 6) & 1) <= 7 && ((b >> 0) & 1) + ((b >> 1) & 1) + (
        (b >> 2) & 1) + ((b >> 3) & 1) + ((b >> 4) & 1) + ((b >> 5) & 1) + ((b >> 6) & 1) + ((b
            >> 7) & 1) <= 8) by (bit_vector);
    }
    ((b >> 0) & 1) + ((b >> 1) & 1) + ((b >> 2) & 1) + ((b >> 3) & 1) + ((b >> 4) & 1) + ((b >> 5)
        & 1) + ((b >> 6) & 1) + ((b >> 7) & 1)
}

/// A 64-bit word assembled from eight bytes, least significant first.
pub open spec fn word_from_bytes(b0: u8, b1: u8, b2: u8, b3: u8, b4: u8, b5: u8, b6: u8, b7: u8) -> u64 {
    (b0 as u64) | ((b1 as u64) << 8) | ((b2 as u64) << 16) | ((b3 as u64) << 24) | ((b4 as u64)
        << 32) | ((b5 as u64) << 40) | ((b6 as u64) << 48) | ((b7 as u64) << 56)
}

/// The weight of an assembled word is the sum of the weights of its bytes.
pub proof fn lemma_word_from_bytes_weight(b0: u8, b1: u8, b2: u8, b3: u8, b4: u8, b5: u8, b6: u8, b7: u8)
    by (bit_vector)
    ensures
        word_weight(word_from_bytes(b0, b1, b2, b3, b4, b5, b6, b7)) == byte_weight(b0)
            + byte_weight(b1) + byte_weight(b2) + byte_weight(b3) + byte_weight(b4) + byte_weight(
            b5,
        ) + byte_weight(b6) + byte_weight(b7),
{
}

/// Sum of the thirty-two 2-bit fields of a word.
spec fn pair_fields_sum(x: u64) -> int {
    ((x >> 0) & 3) + ((x >> 2) & 3) + ((x >> 4) & 3) + ((x >> 6) & 3) + ((x >> 8) & 3) + ((x >> 10)
        & 3) + ((x >> 12) & 3) + ((x >> 14) & 3) + ((x >> 16) & 3) + ((x >> 18) & 3) + ((x >> 20)
        & 3) + ((x >> 22) & 3) + ((x >> 24) & 3) + ((x >> 26) & 3) + ((x >> 28) & 3) + ((x >> 30)
        & 3) + ((x >> 32) & 3) + ((x >> 34) & 3) + ((x >> 36) & 3) + ((x >> 38) & 3) + ((x >> 40)
        & 3) + ((x >> 42) & 3) + ((x >> 44) & 3) + ((x >> 46) & 3) + ((x >> 48) & 3) + ((x >> 50)
        & 3) + ((x >> 52) & 3) + ((x >> 54) & 3) + ((x >> 56) & 3) + ((x >> 58) & 3) + ((x >> 60)
        & 3) + ((x >> 62) & 3)
}

/// Sum of the sixteen 4-bit fields of a word.
spec fn nibble_fields_sum(x: u64) -> int {
    ((x >> 0) & 0xf) + ((x >> 4) & 0xf) + ((x >> 8) & 0xf) + ((x >> 12) & 0xf) + ((x >> 16) & 0xf)
        + ((x >> 20) & 0xf) + ((x >> 24) & 0xf) + ((x >> 28) & 0xf) + ((x >> 32) & 0xf) + ((x >> 36)
        & 0xf) + ((x >> 40) & 0xf) + ((x >> 44) & 0xf) + ((x >> 48) & 0xf) + ((x >> 52) & 0xf) + ((
    x >> 56) & 0xf) + ((x >> 60) & 0xf)
}

/// Sum of the eight 8-bit fields of a word.
spec fn octet_fields_sum(x: u64) -> int {
    ((x >> 0) & 0xff) + ((x >> 8) & 0xff) + ((x >> 16) & 0xff) + ((x >> 24) & 0xff) + ((x >> 32)
        & 0xff) + ((x >> 40) & 0xff) + ((x >> 48) & 0xff) + ((x >> 56) & 0xff)
}

/// Pair step: each 2-bit field of `a` holds the count of the two bits of `w`
/// above it.
#[verifier::rlimit(100)]
proof fn lemma_swar_pairs(w: u64, a: u64)
    by (bit_vector)
    requires
        a == w - ((w >> 1) & 0x5555_5555_5555_5555u64),
    ensures
        pair_fields_sum(a) == word_weight(w),
{
}

/// Nibble step: summing adjacent 2-bit fields preserves the total.
#[verifier::rlimit(100)]
proof fn lemma_swar_nibbles(a: u64, b: u64)
    by (bit_vector)
    requires
        b == ((a & 0x3333_3333_3333_3333u64) + ((a >> 2) & 0x3333_3333_3333_3333u64)),
    ensures
        nibble_fields_sum(b) == pair_fields_sum(a),
{
}

/// Octet step: summing adjacent 4-bit fields preserves the total, given that
/// each 4-bit field is at most 4 so no carry crosses a field boundary.
#[verifier::rlimit(100)]
proof fn lemma_swar_octets(a: u64, b: u64, t: u64, c: u64)
    by (bit_vector)
    requires
        b == ((a & 0x3333_3333_3333_3333u64) + ((a >> 2) & 0x3333_3333_3333_3333u64)),
        t == b + (b >> 4),
        c == t & 0x0f0f_0f0f_0f0f_0f0fu64,
    ensures
        octet_fields_sum(c) == nibble_fields_sum(b),
{
}

/// Horizontal sum: the low byte of the shifted sums is the total of the
/// eight byte fields, given that each field is at most 8 so no carries occur.
#[verifier::rlimit(100)]
proof fn lemma_swar_horizontal(c: u64, s: u64)
    by (bit_vector)
    requires
        c & 0xf0f0_f0f0_f0f0_f0f0u64 == 0,
        s == c + (c >> 8) + (c >> 16) + (c >> 24) + (c >> 32) + (c >> 40) + (c >> 48) + (c >> 56),
    ensures
        (s & 0xff) as int == octet_fields_sum(c),
{
}

/// The parallel popcount chain produces the word's weight.
proof fn lemma_swar_correct(w: u64, a: u64, b: u64, t: u64, c: u64, s: u64)
    requires
        a == w - ((w >> 1) & 0x5555_5555_5555_5555u64),
        b == ((a & 0x3333_3333_3333_3333u64) + ((a >> 2) & 0x3333_3333_3333_3333u64)),
        t == b + (b >> 4),
        c == t & 0x0f0f_0f0f_0f0f_0f0fu64,
        s == c + (c >> 8) + (c >> 16) + (c >> 24) + (c >> 32) + (c >> 40) + (c >> 48) + (c >> 56),
    ensures
        (s & 0xff) as int == word_weight(w),
{
    lemma_swar_pairs(w, a);
    lemma_swar_nibbles(a, b);
    lemma_swar_octets(a, b, t, c);
    assert(c & 0xf0f0_f0f0_f0f0_f0f0u64 == 0) by (bit_vector)
        requires
            c == t & 0x0f0f_0f0f_0f0f_0f0fu64,
    ;
    lemma_swar_horizontal(c, s);
}

/// Count the set bits of a 64-bit word with the bit-parallel
/// shift-and-mask ladder: pairs, nibbles, bytes, then a horizontal sum.
pub fn popcount_word(w: u64) -> (r: u64)
    ensures
        r as int == word_weight(w),
        r <= 64,
{
    proof {
        assert(((w >> 1) & 0x5555_5555_5555_5555u64) <= w) by (bit_vector);
    }
    let a: u64 = w - ((w >> 1) & 0x5555_5555_5555_5555);
    proof {
        assert((a & 0x3333_3333_3333_3333u64) + ((a >> 2) & 0x3333_3333_3333_3333u64)
            <= 0x6666_6666_6666_6666) by (bit_vector);
    }
    let b: u64 = (a & 0x3333_3333_3333_3333) + ((a >> 2) & 0x3333_3333_3333_3333);
    proof {
        assert(b <= 0x6666_6666_6666_6666 ==> b + (b >> 4) <= 0xffff_ffff_ffff_ffff) by (bit_vector);
    }
    let t: u64 = b + (b >> 4);
    let c: u64 = t & 0x0f0f_0f0f_0f0f_0f0f;
    proof {
        assert(c == (t & 0x0f0f_0f0f_0f0f_0f0fu64) ==> c <= 0x0f0f_0f0f_0f0f_0f0fu64 && (c >> 8)
            <= 0x0f0f_0f0f_0f0f_0f0fu64 && (c >> 16) <= 0x0f0f_0f0f_0f0f_0f0fu64 && (c >> 24)
            <= 0x0f0f_0f0f_0f0f_0f0fu64 && (c >> 32) <= 0x0f0f_0f0f_0f0f_0f0fu64 && (c >> 40)
            <= 0x0f0f_0f0f_0f0f_0f0fu64 && (c >> 48) <= 0x0f0f_0f0f_0f0f_0f0fu64 && (c >> 56)
            <= 0x0f0f_0f0f_0f0f_0f0fu64) by (bit_vector);
    }
    let s: u64 = c + (c >> 8) + (c >> 16) + (c >> 24) + (c >> 32) + (c >> 40) + (c >> 48) + (c
        >> 56);
    let r: u64 = s & 0xff;
    proof {
        lemma_swar_correct(w, a, b, t, c, s);
        assert(s & 0xffu64 <= 0xff) by (bit_vector);
        assert(0 <= word_weight(w) <= 64) by (bit_vector);
    }
    r
}

/// Split a byte count into the number of 64-bit word operations and the
/// number of trailing byte operations: the two region sizes always cover the
/// buffer exactly, with no overlap and no gap.
pub fn split_up_simd(n: usize) -> (r: (usize, usize))
    ensures
        8 * r.0 + r.1 == n,
        r.1 < 8,
{
    proof {
        assert(((n >> 3) << 3) <= n && n - ((n >> 3) << 3) < 8 && 8 * (n >> 3) == ((n >> 3)
            << 3)) by (bit_vector);
    }
    let n_64: usize = n >> 3;
    let bytes_64: usize = n_64 << 3;
    let n_8: usize = n - bytes_64;
    (n_64, n_8)
}

} // verus!
