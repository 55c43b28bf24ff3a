//! Who a broadcast is meant for.

use vstd::prelude::*;

verus! {

/// A predicate on player ids that picks the recipients of a broadcast.
pub trait BroadcastTarget {
    /// Whether the player is among the recipients.
    spec fn admits(&self, player_id: i32) -> bool;

    fn contains(&self, player_id: i32) -> (r: bool)
        ensures
            r == self.admits(player_id),
    ;
}

/// Whether `id` occurs in `ids`.
pub fn list_contains(ids: &[i32], id: i32) -> (r: bool)
    ensures
        r == ids@.contains(id),
{
    let mut i: usize = 0;
    while i < ids.len()
        invariant
            i <= ids.len(),
            forall|j: int| 0 <= j < i ==> ids@[j] != id,
        decreases ids.len() - i,
    {
        if ids[i] == id {
            return true;
        }
        i += 1;
    }
    false
}

/// Every player.
pub struct Everyone;

/// The listed players and nobody else.
pub struct AllowList<'a>(pub &'a [i32]);

/// Every player but the listed ones.
pub struct DenyList<'a>(pub &'a [i32]);

impl BroadcastTarget for Everyone {
    open spec fn admits(&self, player_id: i32) -> bool {
        true
    }

    fn contains(&self, player_id: i32) -> (r: bool) {
        true
    }
}

impl<'a> BroadcastTarget for AllowList<'a> {
    open spec fn admits(&self, player_id: i32) -> bool {
        self.0@.contains(player_id)
    }

    fn contains(&self, player_id: i32) -> (r: bool) {
        list_contains(self.0, player_id)
    }
}

impl<'a> BroadcastTarget for DenyList<'a> {
    open spec fn admits(&self, player_id: i32) -> bool {
        !self.0@.contains(player_id)
    }

    fn contains(&self, player_id: i32) -> (r: bool) {
        !list_contains(self.0, player_id)
    }
}

} // verus!
