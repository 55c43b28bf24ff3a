//! Slot indices and the 1-based player ids that appear on the wire.

use vstd::prelude::*;

verus! {

/// Number of slots in every game.
pub const MAX_SLOTS: usize = 24;

/// Index of the slot that is kept free for the observer injected downstream.
pub const FLO_OB_SLOT: usize = 23;

/// The 1-based wire id of the slot at `index`, as a mathematical value.
pub open spec fn slot_player_id_of(index: int) -> int {
    (index + 1) % 256
}

/// Wire id of the slot at `index`: the index plus one, cut to one byte.
pub fn index_to_player_id(index: usize) -> (id: u8)
    ensures
        id as int == slot_player_id_of(index as int),
        index < 255 ==> id as int == index + 1 && id != 0,
{
    let low: u8 = #[verifier::truncate] (index as u8);
    assert(low as int == (index as int) % 256) by (bit_vector)
        requires low == #[verifier::truncate] (index as u8);
    if low == 255 { 0 } else { low + 1 }
}

} // verus!
