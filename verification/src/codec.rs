//! Length-checked codec: a `BitArray` serializes as exactly `B` raw bytes in
//! original order, with no length prefix and no metadata, and deserializes
//! only from inputs of exactly `B` bytes. Any other length is rejected with a
//! structured error, never silently truncated or padded.

use crate::BitArray;
use vstd::prelude::*;
use vstd::slice::slice_index_get;

verus! {

/// Error raised when decoding rejects an input.
#[derive(Copy, Clone, Debug, PartialEq, Eq, Structural, Hash)]
pub enum DecodeError {
    /// During incremental decoding, more bytes arrived than the array holds.
    /// Reported immediately rather than after accumulating all input.
    TooManyBytes,
    /// The input's length differed from the array's byte count; carries the
    /// observed and the expected count.
    WrongLength { actual: usize, expected: usize },
}

/// What encoding produces: the raw byte buffer unchanged.
pub open spec fn encode_spec(x: Seq<u8>) -> Seq<u8> {
    x
}

/// What decoding yields for a fixed byte count `n`: the bytes themselves
/// when exactly `n` of them are given, and nothing otherwise.
pub open spec fn decode_spec(n: nat, s: Seq<u8>) -> Option<Seq<u8>> {
    if s.len() == n {
        Some(s)
    } else {
        None
    }
}

/// Encoding then decoding any buffer of the right length yields the buffer
/// back unchanged.
pub proof fn lemma_codec_round_trip(n: nat, x: Seq<u8>)
    requires
        x.len() == n,
    ensures
        decode_spec(n, encode_spec(x)) == Some(x),
{
}

/// Incremental decoder: accumulates incoming bytes one at a time into a
/// fixed `B`-byte buffer, rejecting excess input as soon as it arrives
/// rather than buffering it.
pub struct Decoder<const B: usize> {
    pub buf: [u8; B],
    pub len: usize,
}

impl<const B: usize> Decoder<B> {
    /// The decoder never holds more than `B` collected bytes.
    pub open spec fn wf(&self) -> bool {
        self.len <= B
    }

    /// The bytes collected so far, in arrival order.
    pub open spec fn collected(&self) -> Seq<u8> {
        self.buf@.take(self.len as int)
    }

    /// Create an empty decoder.
    pub fn new() -> (d: Self)
        ensures
            d.wf(),
            d.len == 0,
            d.collected() == Seq::<u8>::empty(),
    {
        Decoder { buf: [0u8; B], len: 0 }
    }

    /// Append one incoming byte. Fails immediately, leaving the decoder
    /// unchanged, iff `B` bytes have already been collected.
    pub fn push(&mut self, b: u8) -> (r: Result<(), DecodeError>)
        requires
            old(self).wf(),
        ensures
            final (self).wf(),
            old(self).len < B ==> (r is Ok && final (self).len == old(self).len + 1
                && final (self).collected() == old(self).collected().push(b)),
            old(self).len == B ==> (r matches Err(e) && e == DecodeError::TooManyBytes
                && *final (self) == *old(self)),
    {
        if self.len == B {
            return Err(DecodeError::TooManyBytes);
        }
        self.buf[self.len] = b;
        self.len = self.len + 1;
        proof {
            assert(self.buf@.take(self.len as int) =~= old(self).collected().push(b));
        }
        Ok(())
    }

    /// Finish decoding after the input is exhausted. Succeeds iff exactly
    /// `B` bytes were collected, and then the array holds them verbatim.
    pub fn finish(self) -> (r: Result<BitArray<B>, DecodeError>)
        requires
            self.wf(),
        ensures
            self.len == B ==> (r matches Ok(a) && a@ == self.collected()),
            self.len != B ==> (r matches Err(e) && e == (DecodeError::WrongLength {
                actual: self.len,
                expected: B,
            })),
    {
        if self.len != B {
            return Err(DecodeError::WrongLength { actual: self.len, expected: B });
        }
        proof {
            assert(self.buf@.take(B as int) =~= self.buf@);
        }
        Ok(BitArray::new(self.buf))
    }
}

impl<const B: usize> BitArray<B> {
    /// Serialize the array: emit the raw byte buffer unchanged.
    pub fn encode(&self) -> (r: Vec<u8>)
        ensures
            r@ == encode_spec(self@),
    {
        let mut out: Vec<u8> = Vec::new();
        let mut i: usize = 0;
        while i < B
            invariant
                i <= B,
                out@ == self@.take(i as int),
            decreases B - i,
        {
            out.push(self.bytes[i]);
            proof {
                assert(self@.take(i + 1) =~= self@.take(i as int).push(self@[i as int]));
            }
            i += 1;
        }
        proof {
            assert(self@.take(B as int) =~= self@);
        }
        out
    }

    /// Deserialize from a byte string. Succeeds iff exactly `B` bytes are
    /// given, and then the array holds those bytes verbatim; any other
    /// length is rejected up front, before copying.
    pub fn decode(bytes: &[u8]) -> (r: Result<Self, DecodeError>)
        ensures
            bytes@.len() == B ==> (r matches Ok(a) && decode_spec(B as nat, bytes@) == Some(a@)),
            bytes@.len() != B ==> (r matches Err(e) && e == (DecodeError::WrongLength {
                actual: bytes@.len() as usize,
                expected: B,
            })),
    {
        if bytes.len() != B {
            return Err(DecodeError::WrongLength { actual: bytes.len(), expected: B });
        }
        let mut arr = BitArray::<B>::zeros();
        let mut i: usize = 0;
        while i < B
            invariant
                i <= B,
                arr@.len() == B,
                bytes@.len() == B,
                forall|j: int| 0 <= j < i ==> arr@[j] == bytes@[j],
            decreases B - i,
        {
            arr.bytes[i] = *slice_index_get(bytes, i);
            i += 1;
        }
        proof {
            assert(arr@ =~= bytes@);
        }
        Ok(arr)
    }
}

} // verus!
