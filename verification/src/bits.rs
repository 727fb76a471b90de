//! The packed cell buffer: `fixedbitset::FixedBitSet`, described for the
//! verifier.
//!
//! Nothing in this file is proved. Each contract below restates what the
//! `fixedbitset` crate does, and the rest of the library is verified against
//! these statements.

use fixedbitset::FixedBitSet;
use vstd::prelude::*;

verus! {

/// `fixedbitset::FixedBitSet`, a fixed-size set of bits packed into `u32`
/// blocks. The verifier sees no field of it.
#[verifier::external_type_specification]
#[verifier::external_body]
pub struct ExFixedBitSet(FixedBitSet);

/// What a bit set holds: its bits in index order, `true` for an enabled bit.
/// The sequence is as long as the set's length in bits (`FixedBitSet::len`).
pub uninterp spec fn bit_seq(set: FixedBitSet) -> Seq<bool>;

/// Whether bit `k` (counted from the least significant) of a block is set.
pub open spec fn block_bit(block: u32, k: int) -> bool {
    block & (1u32 << (k as u32)) != 0
}

/// `FixedBitSet::with_capacity`: a set of `bits` bits, all of them clear.
pub assume_specification[ FixedBitSet::with_capacity ](bits: usize) -> (set: FixedBitSet)
    ensures
        bit_seq(set) == Seq::new(bits as nat, |i: int| false),
;

/// `FixedBitSet::set`: writes `enabled` to bit `bit` and leaves every other
/// bit and the length as they were. The crate panics when `bit` is not below
/// the length, so that is required.
pub assume_specification[ FixedBitSet::set ](set: &mut FixedBitSet, bit: usize, enabled: bool)
    requires
        bit < bit_seq(*old(set)).len(),
    ensures
        bit_seq(*final(set)) == bit_seq(*old(set)).update(bit as int, enabled),
;

/// `FixedBitSet::as_slice`: the blocks that back the set, thirty-two bits to
/// a block. Bit `i` of the set is bit `i % 32` of block `i / 32`, and there
/// are just enough blocks to hold the set's length.
pub assume_specification[ FixedBitSet::as_slice ](set: &FixedBitSet) -> (blocks: &[u32])
    ensures
        blocks@.len() == (bit_seq(*set).len() + 31) / 32,
        forall|i: int|
            0 <= i < bit_seq(*set).len() ==> #[trigger] bit_seq(*set)[i] == block_bit(
                blocks@[i / 32],
                i % 32,
            ),
;

/// Reads one bit through the set's `Index<usize>` impl, which answers the
/// stored bit for every index below the length and never panics.
#[verifier::external_body]
pub(crate) fn bit_at(set: &FixedBitSet, bit: usize) -> (enabled: bool)
    ensures
        bit < bit_seq(*set).len() ==> enabled == bit_seq(*set)[bit as int],
{
    set[bit]
}

/// Copies a set through its `Clone` impl: the copy holds the same bits and
/// shares no storage with the set it was made from.
#[verifier::external_body]
pub(crate) fn duplicate(set: &FixedBitSet) -> (copy: FixedBitSet)
    ensures
        bit_seq(copy) == bit_seq(*set),
{
    set.clone()
}

} // verus!
