//! Portable scanner: walks the sixteen lanes with an explicit loop.

use vstd::prelude::*;
use crate::bitmask::BitMask;
use crate::control::DELETED;
use crate::control::EMPTY;
use crate::control::HASH_MASK_HIGH_BIT;
use crate::control::is_full;
use crate::control::is_special;
use crate::control::lemma_match_mask_bit;
use crate::control::lemma_special_mask_bit;
use crate::control::loaded;
use crate::control::match_mask;
use crate::control::match_mask_upto;
use crate::control::nth_bit;
use crate::control::special_mask;
use crate::control::special_mask_upto;
use crate::control::stored;
use crate::control::transformed;
use crate::control::transformed_lanes;

verus! {

/// A group of sixteen consecutive control words, scanned in parallel.
///
/// A group is a transient value: it is produced by a load, consumed by the
/// match and convert operations, and never mutated in place.
#[derive(Clone, Copy)]
pub struct Group([u16; 16]);

impl View for Group {
    type V = Seq<u16>;

    closed spec fn view(&self) -> Seq<u16> {
        self.0@
    }
}

impl Group {
    /// A group's worth of `EMPTY` control words, the control array of a
    /// table with no capacity.  The owner of the backing memory answers for
    /// the alignment an aligned load asks of it.
    pub fn static_empty() -> (r: [u16; 16])
        ensures
            r@.len() == 16,
            forall|i: int| 0 <= i < 16 ==> r@[i] == EMPTY,
    {
        [EMPTY;16]
    }

    /// Loads a group from the first sixteen words of `words`, which may
    /// start at any offset of the control array.
    pub fn load(words: &[u16]) -> (g: Group)
        requires
            words@.len() >= 16,
        ensures
            g@ == loaded(words@),
    {
        let mut lanes: [u16; 16] = [0u16;16];
        let mut i: usize = 0;
        while i < 16
            invariant
                i <= 16,
                words@.len() >= 16,
                forall|j: int| 0 <= j < i ==> lanes@[j] == words@[j],
            decreases 16 - i,
        {
            lanes[i] = words[i];
            i = i + 1;
        }
        let g = Group(lanes);
        proof {
            assert(g@ =~= loaded(words@));
        }
        g
    }

    /// Loads a group from the first sixteen words of `words`.  Same result
    /// as `load`; kept apart because on raw memory the aligned form carries
    /// a stronger precondition, which the owner of the backing memory must
    /// uphold, and admits a faster instruction.
    pub fn load_aligned(words: &[u16]) -> (g: Group)
        requires
            words@.len() >= 16,
        ensures
            g@ == loaded(words@),
    {
        Group::load(words)
    }

    /// Writes the group's sixteen words over the start of `out`, leaving the
    /// tail untouched.
    pub fn store_aligned(self, out: &mut Vec<u16>)
        requires
            old(out)@.len() >= 16,
        ensures
            final(out)@.len() == old(out)@.len(),
            final(out)@ == stored(old(out)@, self@),
    {
        let mut i: usize = 0;
        while i < 16
            invariant
                i <= 16,
                out@.len() == old(out)@.len(),
                out@.len() >= 16,
                forall|j: int| 0 <= j < i ==> out@[j] == self@[j],
                forall|j: int| i <= j < out@.len() ==> out@[j] == old(out)@[j],
            decreases 16 - i,
        {
            let w: u16 = self.0[i];
            out.set(i, w);
            i = i + 1;
        }
        proof {
            assert(out@ =~= stored(old(out)@, self@));
        }
    }

    /// Mask of the lanes whose control word equals `byte` exactly.  The
    /// caller probes with a hash fragment (high bit clear) and confirms the
    /// flagged candidates by full key comparison.
    pub fn match_byte(self, byte: u16) -> (r: BitMask)
        ensures
            r.0 == match_mask(self@, byte),
            forall|i: u16| i < 16 ==> #[trigger] nth_bit(r.0, i) == (self@[i as int] == byte),
    {
        let mut mask: u16 = 0;
        let mut i: usize = 0;
        while i < 16
            invariant
                i <= 16,
                mask == match_mask_upto(self@, byte, i as int),
            decreases 16 - i,
        {
            if self.0[i] == byte {
                mask = mask | (1u16 << (i as u16));
            }
            i = i + 1;
        }
        proof {
            assert forall|i: u16| i < 16 implies #[trigger] nth_bit(mask, i) == (self@[i as int]
                == byte) by {
                lemma_match_mask_bit(self@, byte, i);
            }
        }
        BitMask(mask)
    }

    /// Mask of the lanes holding `EMPTY`: where a probe sequence may stop
    /// on a miss.
    pub fn match_empty(self) -> (r: BitMask)
        ensures
            r.0 == match_mask(self@, EMPTY),
            forall|i: u16| i < 16 ==> #[trigger] nth_bit(r.0, i) == (self@[i as int] == EMPTY),
    {
        self.match_byte(EMPTY)
    }

    /// Mask of the non-occupied lanes, `EMPTY` or `DELETED`: the insertion
    /// candidates.  Only the high bit decides; an occupant's hash fragment
    /// is never compared against the reserved words by identity.
    pub fn match_empty_or_deleted(self) -> (r: BitMask)
        ensures
            r.0 == special_mask(self@),
            forall|i: u16| i < 16 ==> #[trigger] nth_bit(r.0, i) == is_special(self@[i as int]),
    {
        let mut mask: u16 = 0;
        let mut i: usize = 0;
        while i < 16
            invariant
                i <= 16,
                mask == special_mask_upto(self@, i as int),
            decreases 16 - i,
        {
            let w: u16 = self.0[i];
            proof {
                assert((w & 0x8000u16 != 0) == (w & 0x8000u16 == 0x8000u16)) by (bit_vector);
            }
            if w & HASH_MASK_HIGH_BIT != 0 {
                mask = mask | (1u16 << (i as u16));
            }
            i = i + 1;
        }
        proof {
            assert forall|i: u16| i < 16 implies #[trigger] nth_bit(mask, i) == is_special(
                self@[i as int],
            ) by {
                lemma_special_mask_bit(self@, i);
            }
        }
        BitMask(mask)
    }

    /// Mask of the occupied lanes: the complement of
    /// `match_empty_or_deleted`, for iteration over live entries.
    pub fn match_full(&self) -> (r: BitMask)
        ensures
            r.0 == crate::control::full_mask(self@),
            forall|i: u16| i < 16 ==> #[trigger] nth_bit(r.0, i) == is_full(self@[i as int]),
    {
        let r = self.match_empty_or_deleted().invert();
        proof {
            assert forall|i: u16| i < 16 implies #[trigger] nth_bit(r.0, i) == is_full(
                self@[i as int],
            ) by {
                lemma_special_mask_bit(self@, i);
                crate::control::lemma_nth_bit_xor_mask(special_mask(self@), i);
                crate::control::lemma_classify(self@[i as int]);
            }
        }
        r
    }

    /// The tombstone-clearing transform, lane by lane: `EMPTY -> EMPTY`,
    /// `DELETED -> EMPTY`, occupied `-> DELETED`.  Occupants become
    /// provisional tombstones so the table can re-probe and compact them,
    /// while stale tombstones resolve to empty.
    pub fn convert_special_to_empty_and_full_to_deleted(self) -> (r: Group)
        ensures
            r@ == transformed_lanes(self@),
            forall|i: int| 0 <= i < 16 ==> r@[i] == transformed(self@[i]),
    {
        let mut lanes: [u16; 16] = self.0;
        let mut i: usize = 0;
        while i < 16
            invariant
                i <= 16,
                lanes@.len() == 16,
                forall|j: int| 0 <= j < i ==> lanes@[j] == transformed(self@[j]),
                forall|j: int| i <= j < 16 ==> lanes@[j] == self@[j],
            decreases 16 - i,
        {
            let w: u16 = lanes[i];
            proof {
                assert((w & 0x8000u16 != 0) == (w & 0x8000u16 == 0x8000u16)) by (bit_vector);
            }
            if w & HASH_MASK_HIGH_BIT != 0 {
                lanes[i] = EMPTY;
            } else {
                lanes[i] = DELETED;
            }
            i = i + 1;
        }
        let g = Group(lanes);
        proof {
            assert(g@ =~= transformed_lanes(self@));
        }
        g
    }
}

} // verus!
