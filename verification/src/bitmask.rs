//! Lane masks returned by a group scan.

use vstd::prelude::*;
use crate::control::BITMASK_MASK;
use crate::control::lemma_nth_bit_xor_mask;
use crate::control::nth_bit;

verus! {

/// One significant bit per lane: bit `i` speaks of control word `i` of the
/// group that produced the mask.  Callers enumerate set bits to visit the
/// flagged slots.
#[derive(Clone, Copy)]
pub struct BitMask(pub u16);

impl BitMask {
    /// The complement restricted to the sixteen significant bits: bit `i`
    /// of the result is set iff bit `i` of `self` is clear.
    pub fn invert(self) -> (r: BitMask)
        ensures
            r.0 == self.0 ^ BITMASK_MASK,
            forall|i: u16| i < 16 ==> #[trigger] nth_bit(r.0, i) == !nth_bit(self.0, i),
    {
        proof {
            assert forall|i: u16| i < 16 implies #[trigger] nth_bit(self.0 ^ BITMASK_MASK, i)
                == !nth_bit(self.0, i) by {
                lemma_nth_bit_xor_mask(self.0, i);
            }
        }
        BitMask(self.0 ^ BITMASK_MASK)
    }
}

} // verus!
