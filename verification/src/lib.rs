//! A constant sized array of bits with fast population count (weight) and
//! Hamming distance, plus a length-checked byte codec.

pub mod bits;
pub mod codec;

use crate::bits::dist_seq;
use crate::bits::lemma_weight_bound;
use crate::bits::lemma_weight_take_chunk;
use crate::bits::lemma_weight_take_succ;
use crate::bits::lemma_word_from_bytes_weight;
use crate::bits::popcount_byte;
use crate::bits::popcount_word;
use crate::bits::split_up_simd;
use crate::bits::weight_seq;
use crate::bits::word_from_bytes;
use crate::bits::xor_seq;
use vstd::prelude::*;

verus! {

/// A constant sized array of bits. `B` defines the number of bytes.
#[derive(Copy, Clone, Eq, Hash, Debug)]
pub struct BitArray<const B: usize> {
    pub bytes: [u8; B],
}

impl<const B: usize> View for BitArray<B> {
    type V = Seq<u8>;

    open spec fn view(&self) -> Seq<u8> {
        self.bytes@
    }
}

impl<const B: usize> BitArray<B> {
    /// Create a new `BitArray` wrapping the given bytes verbatim.
    pub fn new(bytes: [u8; B]) -> (r: Self)
        ensures
            r@ == bytes@,
    {
        Self { bytes }
    }

    /// Create a new `BitArray` with all zeros.
    pub fn zeros() -> (r: Self)
        ensures
            r@.len() == B,
            forall|i: int| 0 <= i < B ==> r@[i] == 0u8,
    {
        Self { bytes: [0u8; B] }
    }

    /// Retrieve the byte array of a `BitArray`.
    pub fn bytes(&self) -> (r: &[u8; B])
        ensures
            r@ == self@,
    {
        &self.bytes
    }

    /// Retrieve the mutable byte array of a `BitArray`.
    pub fn bytes_mut(&mut self) -> (r: &mut [u8; B])
        ensures
            *r == old(self).bytes,
            final (self).bytes == *final (r),
    {
        &mut self.bytes
    }

    /// Compute the hamming weight of the `BitArray`: the number of set bits
    /// over all `B` bytes. The buffer is partitioned into a region counted a
    /// 64-bit word at a time and a tail of fewer than eight bytes counted one
    /// byte at a time; the two regions cover the buffer exactly.
    pub fn weight(&self) -> (r: usize)
        requires
            8 * (B as int) <= usize::MAX as int,
        ensures
            r as int == weight_seq(self@),
            r <= 8 * B,
    {
        let (n_64, n_8) = split_up_simd(B);
        let mut total: usize = 0;
        let mut i: usize = 0;
        while i < n_64
            invariant
                8 * (B as int) <= usize::MAX as int,
                8 * n_64 + n_8 == B,
                n_8 < 8,
                i <= n_64,
                total as int == weight_seq(self@.take(8 * i as int)),
                total <= 64 * i,
            decreases n_64 - i,
        {
            let base: usize = 8 * i;
            let b0 = self.bytes[base];
            let b1 = self.bytes[base + 1];
            let b2 = self.bytes[base + 2];
            let b3 = self.bytes[base + 3];
            let b4 = self.bytes[base + 4];
            let b5 = self.bytes[base + 5];
            let b6 = self.bytes[base + 6];
            let b7 = self.bytes[base + 7];
            let w: u64 = (b0 as u64) | ((b1 as u64) << 8) | ((b2 as u64) << 16) | ((b3 as u64)
                << 24) | ((b4 as u64) << 32) | ((b5 as u64) << 40) | ((b6 as u64) << 48) | ((
            b7 as u64) << 56);
            let c = popcount_word(w);
            proof {
                assert(w == word_from_bytes(b0, b1, b2, b3, b4, b5, b6, b7));
                lemma_word_from_bytes_weight(b0, b1, b2, b3, b4, b5, b6, b7);
                lemma_weight_take_chunk(self@, base as int);
            }
            total = total + (c as usize);
            i += 1;
        }
        let mut j: usize = 8 * n_64;
        while j < B
            invariant
                8 * (B as int) <= usize::MAX as int,
                8 * n_64 + n_8 == B,
                8 * n_64 <= j <= B,
                total as int == weight_seq(self@.take(j as int)),
                total <= 8 * j,
            decreases B - j,
        {
            let c = popcount_byte(self.bytes[j]);
            proof {
                lemma_weight_take_succ(self@, j as int);
            }
            total = total + (c as usize);
            j += 1;
        }
        proof {
            assert(self@.take(B as int) =~= self@);
            lemma_weight_bound(self@);
        }
        total
    }

    /// Compute the hamming distance to another `BitArray`: the weight of the
    /// bitwise exclusive or of the two buffers, computed bytewise without
    /// materializing the combined buffer.
    pub fn distance(&self, other: &Self) -> (r: usize)
        requires
            8 * (B as int) <= usize::MAX as int,
        ensures
            r as int == dist_seq(self@, other@),
            r <= 8 * B,
    {
        let mut total: usize = 0;
        let mut i: usize = 0;
        while i < B
            invariant
                8 * (B as int) <= usize::MAX as int,
                i <= B,
                total as int == weight_seq(xor_seq(self@, other@).take(i as int)),
                total <= 8 * i,
            decreases B - i,
        {
            let x = self.bytes[i] ^ other.bytes[i];
            let c = popcount_byte(x);
            proof {
                assert(xor_seq(self@, other@)[i as int] == x);
                lemma_weight_take_succ(xor_seq(self@, other@), i as int);
            }
            total = total + (c as usize);
            i += 1;
        }
        proof {
            assert(xor_seq(self@, other@).take(B as int) =~= xor_seq(self@, other@));
            lemma_weight_bound(xor_seq(self@, other@));
        }
        total
    }

}

/// Two arrays are equal iff every corresponding byte is equal; the
/// comparison short-circuits on the first mismatch.
impl<const B: usize> PartialEq for BitArray<B> {
    fn eq(&self, other: &Self) -> (r: bool) {
        let mut i: usize = 0;
        while i < B
            invariant
                i <= B,
                forall|j: int| 0 <= j < i ==> self.bytes@[j] == other.bytes@[j],
            decreases B - i,
        {
            if self.bytes[i] != other.bytes[i] {
                return false;
            }
            i += 1;
        }
        proof {
            assert(self.bytes@ =~= other.bytes@);
        }
        true
    }
}

impl<const B: usize> vstd::std_specs::cmp::PartialEqSpecImpl for BitArray<B> {
    open spec fn obeys_eq_spec() -> bool {
        true
    }

    open spec fn eq_spec(&self, other: &Self) -> bool {
        self.bytes@ == other.bytes@
    }
}

} // verus!
