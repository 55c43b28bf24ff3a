//! The accumulator behind the fixed-cadence action ticks. A timer outside
//! this crate decides when a tick is due; this type decides what it carries.

use vstd::prelude::*;
use crate::w3gs::{actions_view, PlayerAction, PlayerActionView};

verus! {

/// Length of one game step in milliseconds, unless configured otherwise.
pub const GAME_DEFAULT_STEP_MS: u16 = 30;

/// One authoritative game step: the time it covers and the actions that
/// arrived for it, in arrival order.
#[derive(Debug, PartialEq, Eq)]
pub struct Tick {
    pub time_increment_ms: u16,
    pub actions: Vec<PlayerAction>,
}

/// Collects player actions between two ticks.
pub struct ActionTickStream {
    step: u16,
    actions: Vec<PlayerAction>,
}

impl ActionTickStream {
    /// The configured step.
    pub closed spec fn step(&self) -> u16 {
        self.step
    }

    /// The actions waiting for the next tick, oldest first.
    pub closed spec fn pending(&self) -> Seq<PlayerActionView> {
        actions_view(self.actions@)
    }

    pub fn new(step: u16) -> (stream: Self)
        ensures
            stream.step() == step,
            stream.pending() == Seq::<PlayerActionView>::empty(),
    {
        let stream = ActionTickStream { step, actions: Vec::new() };
        assert(stream.pending() =~= Seq::<PlayerActionView>::empty());
        stream
    }

    /// Queues an action behind those that arrived before it.
    pub fn add_player_action(&mut self, action: PlayerAction)
        ensures
            final(self).step() == old(self).step(),
            final(self).pending() == old(self).pending().push(action@),
    {
        self.actions.push(action);
        assert(self.pending() =~= old(self).pending().push(action@));
    }

    /// The tick that is due now: everything queued since the last tick, in
    /// arrival order, or an empty tick when nothing arrived. The queue starts
    /// over.
    pub fn next_tick(&mut self) -> (tick: Tick)
        ensures
            tick.time_increment_ms == old(self).step(),
            actions_view(tick.actions@) == old(self).pending(),
            final(self).step() == old(self).step(),
            final(self).pending() == Seq::<PlayerActionView>::empty(),
    {
        let mut actions: Vec<PlayerAction> = Vec::new();
        std::mem::swap(&mut actions, &mut self.actions);
        assert(self.pending() =~= Seq::<PlayerActionView>::empty());
        Tick { time_increment_ms: self.step, actions }
    }
}

} // verus!
