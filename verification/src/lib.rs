//! Session core of a Warcraft III LAN relay: the node-side game dispatcher,
//! the client-side proxy phases, the action tick accumulator and the replay
//! record builder, each with a machine-checked contract.

pub mod broadcast;
pub mod clock;
pub mod dispatch;
pub mod game;
pub mod idmap;
pub mod load;
pub mod observer;
pub mod players;
pub mod proxy;
pub mod replay;
pub mod sink;
pub mod slot;
pub mod status;
pub mod w3gs;
