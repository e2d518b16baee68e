//! The XOR mask engine: a 4-byte key cycled over the payload by index.
use vstd::prelude::*;

verus! {

/// A 4-byte frame masking key.
#[derive(Debug, Clone, Copy, PartialEq, Eq, Structural)]
pub struct MaskKey {
    /// First key byte.
    pub b0: u8,
    /// Second key byte.
    pub b1: u8,
    /// Third key byte.
    pub b2: u8,
    /// Fourth key byte.
    pub b3: u8,
}

impl MaskKey {
    /// The four key bytes in order.
    pub open spec fn bytes(self) -> Seq<u8> {
        seq![self.b0, self.b1, self.b2, self.b3]
    }

    /// The key byte at index `i`.
    pub fn byte_at(self, i: usize) -> (r: u8)
        requires
            i < 4,
        ensures
            r == self.bytes()[i as int],
    {
        if i == 0 {
            self.b0
        } else if i == 1 {
            self.b1
        } else if i == 2 {
            self.b2
        } else {
            self.b3
        }
    }
}

/// Relies on `rand::random`: draws a fresh 4-byte mask from a
/// nondeterministic source. Nothing is promised of the value.
#[verifier::external_body]
pub(crate) fn generate() -> MaskKey {
    let m: [u8; 4] = rand::random();
    MaskKey { b0: m[0], b1: m[1], b2: m[2], b3: m[3] }
}

/// The image of a payload under a 4-byte XOR mask.
pub open spec fn spec_masked(data: Seq<u8>, mask: Seq<u8>) -> Seq<u8> {
    data.map(|i: int, b: u8| b ^ mask[i % 4])
}

/// Masking twice with the same key restores the payload.
pub proof fn lemma_mask_involutive(data: Seq<u8>, mask: Seq<u8>)
    requires
        mask.len() == 4,
    ensures
        spec_masked(spec_masked(data, mask), mask) == data,
{
    assert forall|i: int| 0 <= i < data.len() implies spec_masked(spec_masked(data, mask), mask)[i]
        == data[i] by {
        let b = data[i];
        let m = mask[i % 4];
        assert((b ^ m) ^ m == b) by (bit_vector);
    }
    assert(spec_masked(spec_masked(data, mask), mask) =~= data);
}

/// Apply a 4-byte XOR mask to a buffer in place, keyed by byte index modulo 4.
pub fn apply_mask(buf: &mut Vec<u8>, mask: MaskKey)
    ensures
        final(buf)@ == spec_masked(old(buf)@, mask.bytes()),
{
    apply_mask_default(buf, mask)
}

/// Byte-by-byte mask application.
pub fn apply_mask_default(buf: &mut Vec<u8>, mask: MaskKey)
    ensures
        final(buf)@ == spec_masked(old(buf)@, mask.bytes()),
{
    let n = buf.len();
    let mut i: usize = 0;
    while i < n
        invariant
            n == buf@.len(),
            buf@.len() == old(buf)@.len(),
            i <= n,
            forall|j: int| 0 <= j < i ==> buf@[j] == old(buf)@[j] ^ mask.bytes()[j % 4],
            forall|j: int| i <= j < n ==> buf@[j] == old(buf)@[j],
        decreases n - i,
    {
        let b = buf[i];
        buf.set(i, b ^ mask.byte_at(i % 4));
        i += 1;
    }
    assert(buf@ =~= spec_masked(old(buf)@, mask.bytes()));
}

} // verus!
