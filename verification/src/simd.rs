//! Vector scanner: mirrors, lane by lane, how a 256-bit integer vector unit
//! scans a group — a parallel compare, a saturating pack of each signed
//! 16-bit lane to eight bits, and an extraction of one sign bit per packed
//! lane.  The pack keeps each lane's sign: a non-occupied word is negative
//! as a signed integer and clamps to a negative byte, an occupied word is
//! non-negative and clamps to a non-negative byte, whatever its hash
//! fragment.  That equivalence is proved here over the whole 16-bit domain,
//! so this backend and the portable one agree on every input.

use vstd::prelude::*;
use crate::bitmask::BitMask;
use crate::control::EMPTY;
use crate::control::HASH_MASK_HIGH_BIT;
use crate::control::is_full;
use crate::control::is_special;
use crate::control::lemma_match_mask_bit;
use crate::control::lemma_special_mask_bit;
use crate::control::loaded;
use crate::control::match_mask;
use crate::control::match_mask_upto;
use crate::control::nth_bit;
use crate::control::special_mask;
use crate::control::special_mask_upto;
use crate::control::stored;
use crate::control::transformed;
use crate::control::transformed_lanes;

verus! {

/// Saturating pack of one lane to eight bits, read unsigned: a lane below
/// `0x8000` is non-negative as a signed integer and clamps to at most
/// `0x7f`; a lane of `0x8000` or above is negative and clamps to at least
/// `0x80`, keeping its sign bit.
pub open spec fn sat8(w: u16) -> u8 {
    if w < 0x80 {
        w as u8
    } else if w < 0x8000 {
        0x7fu8
    } else if w >= 0xff80 {
        (w & 0xff) as u8
    } else {
        0x80u8
    }
}

/// Sign bit of a packed lane, as the move-mask step reads it.
pub open spec fn sign8(b: u8) -> bool {
    b & 0x80 == 0x80
}

/// One lane of the parallel equality compare: all bits set on a match.
pub open spec fn cmpeq_lane(w: u16, b: u16) -> u16 {
    if w == b {
        0xffffu16
    } else {
        0u16
    }
}

/// The parallel equality compare over a whole group.
pub open spec fn cmpeq_lanes(lanes: Seq<u16>, b: u16) -> Seq<u16> {
    lanes.map(|i: int, w: u16| cmpeq_lane(w, b))
}

/// One lane of the signed compare of zero against the lane: all bits set
/// iff the lane is negative as a signed integer, that is, iff its value is
/// at least `0x8000`.
pub open spec fn cmpgt_zero_lane(w: u16) -> u16 {
    if w >= 0x8000 {
        0xffffu16
    } else {
        0u16
    }
}

/// One lane of the tombstone-clearing transform as this backend computes
/// it: the sign compare, then the high bit forced on.
pub open spec fn vector_transformed(w: u16) -> u16 {
    cmpgt_zero_lane(w) | HASH_MASK_HIGH_BIT
}

/// Mask whose bits below `n` are the sign bits of the packed lanes.
pub open spec fn sign_mask_upto(lanes: Seq<u16>, n: int) -> u16
    decreases n,
{
    if n <= 0 {
        0u16
    } else if sign8(sat8(lanes[n - 1])) {
        sign_mask_upto(lanes, n - 1) | (1u16 << ((n - 1) as u16))
    } else {
        sign_mask_upto(lanes, n - 1)
    }
}

/// Mask of the sign bits of the packed lanes.
pub open spec fn sign_mask(lanes: Seq<u16>) -> u16 {
    sign_mask_upto(lanes, crate::control::WIDTH as int)
}

/// Law: the saturating pack preserves the sign of every 16-bit lane, so
/// its sign bit flags exactly the non-occupied words.
pub proof fn lemma_narrow_keeps_sign(w: u16)
    ensures
        sign8(sat8(w)) == is_special(w),
{
    assert(sign8(sat8(w)) == (w & 0x8000u16 == 0x8000u16)) by (bit_vector);
}

/// Law: packing the result of the equality compare and reading its sign
/// bit flags exactly the matching lanes.
pub proof fn lemma_cmpeq_sat_sign(w: u16, b: u16)
    ensures
        sign8(sat8(cmpeq_lane(w, b))) == (w == b),
{
    assert(sign8(sat8(if w == b {
        0xffffu16
    } else {
        0u16
    })) == (w == b)) by (bit_vector);
}

proof fn lemma_sign_special_upto(lanes: Seq<u16>, n: int)
    requires
        0 <= n <= 16,
    ensures
        sign_mask_upto(lanes, n) == special_mask_upto(lanes, n),
    decreases n,
{
    if n > 0 {
        lemma_sign_special_upto(lanes, n - 1);
        lemma_narrow_keeps_sign(lanes[n - 1]);
    }
}

/// Law: on every group, the pack-and-sign pipeline and the portable high-bit
/// scan yield the same non-occupied mask.
pub proof fn lemma_specials_backends_agree(lanes: Seq<u16>)
    ensures
        sign_mask(lanes) == special_mask(lanes),
{
    lemma_sign_special_upto(lanes, 16);
}

proof fn lemma_sign_match_upto(lanes: Seq<u16>, b: u16, n: int)
    requires
        0 <= n <= 16,
        lanes.len() == 16,
    ensures
        sign_mask_upto(cmpeq_lanes(lanes, b), n) == match_mask_upto(lanes, b, n),
    decreases n,
{
    if n > 0 {
        lemma_sign_match_upto(lanes, b, n - 1);
        assert(cmpeq_lanes(lanes, b)[n - 1] == cmpeq_lane(lanes[n - 1], b));
        lemma_cmpeq_sat_sign(lanes[n - 1], b);
    }
}

/// Law: on every group and every probe word, the compare-pack-sign pipeline
/// and the portable equality scan yield the same match mask.
pub proof fn lemma_match_backends_agree(lanes: Seq<u16>, b: u16)
    requires
        lanes.len() == 16,
    ensures
        sign_mask(cmpeq_lanes(lanes, b)) == match_mask(lanes, b),
{
    lemma_sign_match_upto(lanes, b, 16);
}

/// Law: on every control word, the sign-compare-and-or transform of this
/// backend equals the portable high-bit transform.
pub proof fn lemma_transform_backends_agree(w: u16)
    ensures
        vector_transformed(w) == transformed(w),
{
    crate::control::lemma_classify(w);
    assert(0xffffu16 | 0x8000u16 == 0xffffu16) by (bit_vector);
    assert(0u16 | 0x8000u16 == 0x8000u16) by (bit_vector);
}

/// The saturating pack of one lane, as executable code.
fn saturate_lane(w: u16) -> (r: u8)
    ensures
        r == sat8(w),
{
    if w < 0x80 {
        w as u8
    } else if w < 0x8000 {
        0x7f
    } else if w >= 0xff80 {
        proof {
            assert(w & 0xffu16 < 0x100) by (bit_vector);
        }
        (w & 0xff) as u8
    } else {
        0x80
    }
}

/// A group of sixteen consecutive control words, scanned in parallel with
/// the vector pipeline.
///
/// A group is a transient value: it is produced by a load, consumed by the
/// match and convert operations, and never mutated in place.
#[derive(Clone, Copy)]
pub struct Group([u16; 16]);

impl View for Group {
    type V = Seq<u16>;

    closed spec fn view(&self) -> Seq<u16> {
        self.0@
    }
}

impl Group {
    /// A group's worth of `EMPTY` control words, the control array of a
    /// table with no capacity.  The owner of the backing memory answers for
    /// the alignment an aligned load asks of it.
    pub fn static_empty() -> (r: [u16; 16])
        ensures
            r@.len() == 16,
            forall|i: int| 0 <= i < 16 ==> r@[i] == EMPTY,
    {
        [EMPTY;16]
    }

    /// Loads a group from the first sixteen words of `words`, which may
    /// start at any offset of the control array.
    pub fn load(words: &[u16]) -> (g: Group)
        requires
            words@.len() >= 16,
        ensures
            g@ == loaded(words@),
    {
        let mut lanes: [u16; 16] = [0u16;16];
        let mut i: usize = 0;
        while i < 16
            invariant
                i <= 16,
                words@.len() >= 16,
                forall|j: int| 0 <= j < i ==> lanes@[j] == words@[j],
            decreases 16 - i,
        {
            lanes[i] = words[i];
            i = i + 1;
        }
        let g = Group(lanes);
        proof {
            assert(g@ =~= loaded(words@));
        }
        g
    }

    /// Loads a group from the first sixteen words of `words`.  Same result
    /// as `load`; kept apart because on raw memory the aligned form carries
    /// a stronger precondition, which the owner of the backing memory must
    /// uphold, and admits a faster instruction.
    pub fn load_aligned(words: &[u16]) -> (g: Group)
        requires
            words@.len() >= 16,
        ensures
            g@ == loaded(words@),
    {
        Group::load(words)
    }

    /// Writes the group's sixteen words over the start of `out`, leaving the
    /// tail untouched.
    pub fn store_aligned(self, out: &mut Vec<u16>)
        requires
            old(out)@.len() >= 16,
        ensures
            final(out)@.len() == old(out)@.len(),
            final(out)@ == stored(old(out)@, self@),
    {
        let mut i: usize = 0;
        while i < 16
            invariant
                i <= 16,
                out@.len() == old(out)@.len(),
                out@.len() >= 16,
                forall|j: int| 0 <= j < i ==> out@[j] == self@[j],
                forall|j: int| i <= j < out@.len() ==> out@[j] == old(out)@[j],
            decreases 16 - i,
        {
            let w: u16 = self.0[i];
            out.set(i, w);
            i = i + 1;
        }
        proof {
            assert(out@ =~= stored(old(out)@, self@));
        }
    }

    /// Mask of the lanes whose control word equals `byte` exactly, read off
    /// the sign bits of the packed equality compare.
    pub fn match_byte(self, byte: u16) -> (r: BitMask)
        ensures
            r.0 == sign_mask(cmpeq_lanes(self@, byte)),
            r.0 == match_mask(self@, byte),
            forall|i: u16| i < 16 ==> #[trigger] nth_bit(r.0, i) == (self@[i as int] == byte),
    {
        let mut mask: u16 = 0;
        let mut i: usize = 0;
        while i < 16
            invariant
                i <= 16,
                mask == sign_mask_upto(cmpeq_lanes(self@, byte), i as int),
            decreases 16 - i,
        {
            let cmp: u16 = if self.0[i] == byte {
                0xffff
            } else {
                0
            };
            proof {
                assert(cmpeq_lanes(self@, byte)[i as int] == cmpeq_lane(self@[i as int], byte));
            }
            let narrowed: u8 = saturate_lane(cmp);
            if narrowed & 0x80 == 0x80 {
                mask = mask | (1u16 << (i as u16));
            }
            i = i + 1;
        }
        proof {
            lemma_match_backends_agree(self@, byte);
            assert forall|i: u16| i < 16 implies #[trigger] nth_bit(mask, i) == (self@[i as int]
                == byte) by {
                lemma_match_mask_bit(self@, byte, i);
            }
        }
        BitMask(mask)
    }

    /// Mask of the lanes holding `EMPTY`: where a probe sequence may stop
    /// on a miss.
    pub fn match_empty(self) -> (r: BitMask)
        ensures
            r.0 == match_mask(self@, EMPTY),
            forall|i: u16| i < 16 ==> #[trigger] nth_bit(r.0, i) == (self@[i as int] == EMPTY),
    {
        self.match_byte(EMPTY)
    }

    /// Mask of the non-occupied lanes, read off the sign bits of the packed
    /// lanes themselves: no explicit compare is needed, because the pack
    /// keeps each lane's sign.
    pub fn match_empty_or_deleted(self) -> (r: BitMask)
        ensures
            r.0 == sign_mask(self@),
            r.0 == special_mask(self@),
            forall|i: u16| i < 16 ==> #[trigger] nth_bit(r.0, i) == is_special(self@[i as int]),
    {
        let mut mask: u16 = 0;
        let mut i: usize = 0;
        while i < 16
            invariant
                i <= 16,
                mask == sign_mask_upto(self@, i as int),
            decreases 16 - i,
        {
            let narrowed: u8 = saturate_lane(self.0[i]);
            if narrowed & 0x80 == 0x80 {
                mask = mask | (1u16 << (i as u16));
            }
            i = i + 1;
        }
        proof {
            lemma_specials_backends_agree(self@);
            assert forall|i: u16| i < 16 implies #[trigger] nth_bit(mask, i) == is_special(
                self@[i as int],
            ) by {
                lemma_special_mask_bit(self@, i);
            }
        }
        BitMask(mask)
    }

    /// Mask of the occupied lanes: the complement of
    /// `match_empty_or_deleted`, for iteration over live entries.
    pub fn match_full(&self) -> (r: BitMask)
        ensures
            r.0 == crate::control::full_mask(self@),
            forall|i: u16| i < 16 ==> #[trigger] nth_bit(r.0, i) == is_full(self@[i as int]),
    {
        let r = self.match_empty_or_deleted().invert();
        proof {
            assert forall|i: u16| i < 16 implies #[trigger] nth_bit(r.0, i) == is_full(
                self@[i as int],
            ) by {
                lemma_special_mask_bit(self@, i);
                crate::control::lemma_nth_bit_xor_mask(special_mask(self@), i);
                crate::control::lemma_classify(self@[i as int]);
            }
        }
        r
    }

    /// The tombstone-clearing transform, computed as the vector unit does:
    /// a signed compare of zero against each lane (all bits set iff the
    /// lane is negative), then the high bit forced on.
    pub fn convert_special_to_empty_and_full_to_deleted(self) -> (r: Group)
        ensures
            r@ == transformed_lanes(self@),
            forall|i: int| 0 <= i < 16 ==> r@[i] == transformed(self@[i]),
    {
        let mut lanes: [u16; 16] = self.0;
        let mut i: usize = 0;
        while i < 16
            invariant
                i <= 16,
                lanes@.len() == 16,
                forall|j: int| 0 <= j < i ==> lanes@[j] == transformed(self@[j]),
                forall|j: int| i <= j < 16 ==> lanes@[j] == self@[j],
            decreases 16 - i,
        {
            let w: u16 = lanes[i];
            let special: u16 = if w >= HASH_MASK_HIGH_BIT {
                0xffff
            } else {
                0
            };
            proof {
                lemma_transform_backends_agree(w);
            }
            lanes[i] = special | HASH_MASK_HIGH_BIT;
            i = i + 1;
        }
        let g = Group(lanes);
        proof {
            assert(g@ =~= transformed_lanes(self@));
        }
        g
    }
}

} // verus!
