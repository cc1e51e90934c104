//! Control words, lane masks, and their specification.
//!
//! A control word is 16 bits wide.  Its high bit is clear exactly on an
//! occupied slot, whose low fifteen bits hold a fragment of the occupant's
//! hash; a word with the high bit set is one of the two non-occupied states,
//! `EMPTY` or `DELETED`.  A scan of a group of sixteen words yields a 16-bit
//! lane mask, bit `i` speaking of word `i`.

use vstd::prelude::*;

verus! {

/// Number of control words scanned together as one group.
pub const WIDTH: usize = 16;

/// In-memory size of one group, in bytes.
pub const BYTES: usize = 32;

/// High bit of a control word: set exactly on the non-occupied states.
pub const HASH_MASK_HIGH_BIT: u16 = 0x8000;

/// Low fifteen bits of a control word: the hash fragment of an occupant.
pub const HASH_MASK_LOW_BIT: u16 = 0x7fff;

/// Control word of a slot that was never used, or was vacated by a
/// tombstone-clearing pass; probing may stop here.
pub const EMPTY: u16 = 0xffff;

/// Control word of a slot whose entry was removed; probing must continue
/// past it, but an insert may reuse it.
pub const DELETED: u16 = 0x8000;

/// All sixteen significant bits of a lane mask.
pub const BITMASK_MASK: u16 = 0xffff;

/// Bit `i` of the mask `m`.
pub open spec fn nth_bit(m: u16, i: u16) -> bool {
    (m >> i) & 1 == 1
}

/// A control word marks a non-occupied slot (`EMPTY` or `DELETED`) iff its
/// high bit is set.
pub open spec fn is_special(w: u16) -> bool {
    w & HASH_MASK_HIGH_BIT == HASH_MASK_HIGH_BIT
}

/// A control word marks an occupied slot iff its high bit is clear.
pub open spec fn is_full(w: u16) -> bool {
    w & HASH_MASK_HIGH_BIT == 0
}

/// One word of the tombstone-clearing transform:
/// `EMPTY -> EMPTY`, `DELETED -> EMPTY`, occupied `-> DELETED`.
pub open spec fn transformed(w: u16) -> u16 {
    if is_special(w) {
        EMPTY
    } else {
        DELETED
    }
}

/// The tombstone-clearing transform applied to every lane.
pub open spec fn transformed_lanes(lanes: Seq<u16>) -> Seq<u16> {
    lanes.map(|i: int, w: u16| transformed(w))
}

/// Mask whose bits below `n` flag the lanes that equal `b`.
pub open spec fn match_mask_upto(lanes: Seq<u16>, b: u16, n: int) -> u16
    decreases n,
{
    if n <= 0 {
        0u16
    } else if lanes[n - 1] == b {
        match_mask_upto(lanes, b, n - 1) | (1u16 << ((n - 1) as u16))
    } else {
        match_mask_upto(lanes, b, n - 1)
    }
}

/// Mask flagging the lanes that equal `b`.
pub open spec fn match_mask(lanes: Seq<u16>, b: u16) -> u16 {
    match_mask_upto(lanes, b, WIDTH as int)
}

/// Mask whose bits below `n` flag the non-occupied lanes.
pub open spec fn special_mask_upto(lanes: Seq<u16>, n: int) -> u16
    decreases n,
{
    if n <= 0 {
        0u16
    } else if is_special(lanes[n - 1]) {
        special_mask_upto(lanes, n - 1) | (1u16 << ((n - 1) as u16))
    } else {
        special_mask_upto(lanes, n - 1)
    }
}

/// Mask flagging the non-occupied lanes (`EMPTY` or `DELETED`).
pub open spec fn special_mask(lanes: Seq<u16>) -> u16 {
    special_mask_upto(lanes, WIDTH as int)
}

/// Mask flagging the occupied lanes: the complement of `special_mask` over
/// the sixteen significant bits.
pub open spec fn full_mask(lanes: Seq<u16>) -> u16 {
    special_mask(lanes) ^ BITMASK_MASK
}

/// What a load of a window of control words yields: its first `WIDTH` words.
pub open spec fn loaded(words: Seq<u16>) -> Seq<u16> {
    words.subrange(0, WIDTH as int)
}

/// What a store of a group leaves in a buffer: the group's lanes, then the
/// buffer's untouched tail.
pub open spec fn stored(buf: Seq<u16>, lanes: Seq<u16>) -> Seq<u16> {
    lanes + buf.subrange(WIDTH as int, buf.len() as int)
}

/// The zero mask has no bit set.
pub proof fn lemma_nth_bit_zero(i: u16)
    requires
        i < 16,
    ensures
        !nth_bit(0u16, i),
{
    assert(i < 16 ==> (0u16 >> i) & 1 == 0) by (bit_vector);
}

/// Setting bit `j` sets exactly bit `j` and keeps every other bit.
pub proof fn lemma_nth_bit_or_shift(m: u16, j: u16, i: u16)
    requires
        i < 16,
        j < 16,
    ensures
        nth_bit(m | (1u16 << j), i) == (i == j || nth_bit(m, i)),
{
    assert(i < 16 && j < 16 ==> ((((m | (1u16 << j)) >> i) & 1 == 1) == (i == j || (m >> i) & 1
        == 1))) by (bit_vector);
}

/// Inverting over the sixteen significant bits flips every lane bit.
pub proof fn lemma_nth_bit_xor_mask(m: u16, i: u16)
    requires
        i < 16,
    ensures
        nth_bit(m ^ BITMASK_MASK, i) == !nth_bit(m, i),
{
    assert(i < 16 ==> ((((m ^ 0xffffu16) >> i) & 1 == 1) == !((m >> i) & 1 == 1))) by (bit_vector);
}

/// A control word is non-occupied iff its value is at least `0x8000`, that
/// is, iff it is negative when read as a signed sixteen-bit integer.
pub proof fn lemma_classify(w: u16)
    ensures
        is_special(w) == (w >= 0x8000),
        is_full(w) == (w < 0x8000),
        is_special(w) == !is_full(w),
{
    assert((w & 0x8000u16 == 0x8000u16) == (w >= 0x8000)) by (bit_vector);
    assert((w & 0x8000u16 == 0u16) == (w < 0x8000)) by (bit_vector);
}

proof fn lemma_match_mask_upto_bit(lanes: Seq<u16>, b: u16, n: int, i: u16)
    requires
        0 <= n <= 16,
        i < 16,
    ensures
        nth_bit(match_mask_upto(lanes, b, n), i) == (i < n && lanes[i as int] == b),
    decreases n,
{
    if n <= 0 {
        lemma_nth_bit_zero(i);
    } else {
        lemma_match_mask_upto_bit(lanes, b, n - 1, i);
        if lanes[n - 1] == b {
            lemma_nth_bit_or_shift(match_mask_upto(lanes, b, n - 1), (n - 1) as u16, i);
        }
    }
}

/// Bit `i` of `match_mask` is set iff lane `i` equals `b`.
pub proof fn lemma_match_mask_bit(lanes: Seq<u16>, b: u16, i: u16)
    requires
        i < 16,
    ensures
        nth_bit(match_mask(lanes, b), i) == (lanes[i as int] == b),
{
    lemma_match_mask_upto_bit(lanes, b, WIDTH as int, i);
}

proof fn lemma_special_mask_upto_bit(lanes: Seq<u16>, n: int, i: u16)
    requires
        0 <= n <= 16,
        i < 16,
    ensures
        nth_bit(special_mask_upto(lanes, n), i) == (i < n && is_special(lanes[i as int])),
    decreases n,
{
    if n <= 0 {
        lemma_nth_bit_zero(i);
    } else {
        lemma_special_mask_upto_bit(lanes, n - 1, i);
        if is_special(lanes[n - 1]) {
            lemma_nth_bit_or_shift(special_mask_upto(lanes, n - 1), (n - 1) as u16, i);
        }
    }
}

/// Bit `i` of `special_mask` is set iff lane `i` is non-occupied.
pub proof fn lemma_special_mask_bit(lanes: Seq<u16>, i: u16)
    requires
        i < 16,
    ensures
        nth_bit(special_mask(lanes), i) == is_special(lanes[i as int]),
{
    lemma_special_mask_upto_bit(lanes, WIDTH as int, i);
}

/// Law: the occupied mask and the non-occupied mask partition the group.
/// Bitwise they are exact complements over the sixteen significant bits:
/// they share no bit, and together they cover every lane.
pub proof fn lemma_partition(lanes: Seq<u16>)
    ensures
        forall|i: u16|
            i < 16 ==> #[trigger] nth_bit(full_mask(lanes), i) == !nth_bit(special_mask(lanes), i),
        special_mask(lanes) & full_mask(lanes) == 0,
        special_mask(lanes) | full_mask(lanes) == BITMASK_MASK,
{
    assert forall|i: u16| i < 16 implies #[trigger] nth_bit(full_mask(lanes), i) == !nth_bit(
        special_mask(lanes),
        i,
    ) by {
        lemma_nth_bit_xor_mask(special_mask(lanes), i);
    }
    let m = special_mask(lanes);
    assert(m & (m ^ 0xffffu16) == 0) by (bit_vector);
    assert(m | (m ^ 0xffffu16) == 0xffffu16) by (bit_vector);
}

/// Law: every lane flagged empty is flagged non-occupied, and a lane is
/// flagged occupied exactly when its high bit is clear, whatever its low
/// fifteen bits hold.
pub proof fn lemma_classification(lanes: Seq<u16>)
    ensures
        forall|i: u16|
            i < 16 && #[trigger] nth_bit(match_mask(lanes, EMPTY), i) ==> nth_bit(
                special_mask(lanes),
                i,
            ),
        forall|i: u16| i < 16 ==> #[trigger] nth_bit(full_mask(lanes), i) == is_full(
            lanes[i as int],
        ),
{
    assert forall|i: u16| i < 16 && #[trigger] nth_bit(match_mask(lanes, EMPTY), i) implies nth_bit(
        special_mask(lanes),
        i,
    ) by {
        lemma_match_mask_bit(lanes, EMPTY, i);
        lemma_special_mask_bit(lanes, i);
        lemma_classify(lanes[i as int]);
    }
    assert forall|i: u16| i < 16 implies #[trigger] nth_bit(full_mask(lanes), i) == is_full(
        lanes[i as int],
    ) by {
        lemma_nth_bit_xor_mask(special_mask(lanes), i);
        lemma_special_mask_bit(lanes, i);
        lemma_classify(lanes[i as int]);
    }
}

/// Law: the tombstone-clearing transform sends `EMPTY` to `EMPTY`, `DELETED`
/// to `EMPTY`, and every occupied word to exactly `DELETED`, whatever its
/// hash fragment.
pub proof fn lemma_transform_cases(w: u16)
    ensures
        w == EMPTY ==> transformed(w) == EMPTY,
        w == DELETED ==> transformed(w) == EMPTY,
        is_full(w) ==> transformed(w) == DELETED,
        is_special(w) ==> transformed(w) == EMPTY,
{
    lemma_classify(w);
}

/// Law: storing a group and loading it back yields the same lanes, and the
/// buffer's tail is untouched.
pub proof fn lemma_store_load_round_trip(buf: Seq<u16>, lanes: Seq<u16>)
    requires
        buf.len() >= WIDTH,
        lanes.len() == WIDTH,
    ensures
        loaded(stored(buf, lanes)) == lanes,
{
    assert(loaded(stored(buf, lanes)) =~= lanes);
}

} // verus!
