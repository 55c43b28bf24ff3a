//! Status values that the node and the proxy exchange about players and games.

use vstd::prelude::*;

verus! {

/// What a node knows of one player's game client.
#[derive(Clone, Copy, Debug, PartialEq, Eq, Structural)]
pub enum SlotClientStatus {
    Pending,
    Connected,
    Joined,
    Loading,
    Loaded,
    Disconnected,
    Left,
}

/// Stage of a game as the node reports it.
#[derive(Clone, Copy, Debug, PartialEq, Eq, Structural)]
pub enum NodeGameStatus {
    Created,
    Waiting,
    Loading,
    Running,
    Ended,
}

/// Who observed a change of a player's status.
#[derive(Clone, Copy, Debug, PartialEq, Eq, Structural)]
pub enum SlotClientStatusUpdateSource {
    Node,
    Client,
}

/// Restrictions placed on a player.
#[derive(Clone, Copy, Debug, PartialEq, Eq, Structural)]
pub enum PlayerBanType {
    Chat,
}

/// What a dispatcher tells the owner of its game.
#[derive(Clone, Copy, Debug, PartialEq, Eq, Structural)]
pub enum GameEvent {
    PlayerStatusChange(i32, SlotClientStatus, SlotClientStatusUpdateSource),
}

} // verus!
