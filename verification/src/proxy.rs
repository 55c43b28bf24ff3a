//! The phases of one LAN proxy session and the rules by which the
//! supervisor moves between them.
//!
//! The supervisor owns the listener and the sockets and does the waiting.
//! Whatever it has waited for, it hands to `Supervisor::step` as an event,
//! and does what the answer says.

use vstd::prelude::*;
use crate::load::LoadNext;
use crate::status::NodeGameStatus;
use crate::w3gs::Packet;

verus! {

/// Phase of a proxy session.
#[derive(Clone, Copy, Debug, PartialEq, Eq, Structural)]
pub enum Phase {
    Lobby,
    Load,
    InGame,
    Ended,
}

/// Where exactly a session stands. The lobby phase has two stages: waiting
/// for the game client to connect, and talking to a connected client.
#[derive(Clone, Copy, Debug, PartialEq, Eq, Structural)]
pub enum Stage {
    Accepting,
    Lobby,
    Load,
    InGame,
    Ended,
}

/// How a lobby exchange with the game client ended.
#[derive(Clone, Copy, Debug, PartialEq, Eq, Structural)]
pub enum LobbyAction {
    /// The game starts: keep the connection and go on to the load screen.
    Start,
    /// The client left: close the connection and wait for the next one.
    Leave,
}

/// What the listener came back with.
#[derive(Clone, Copy, Debug, PartialEq, Eq, Structural)]
pub enum Accepted {
    /// A game client connected.
    Stream,
    /// The listener will give no more connections.
    Closed,
    /// An attempt to connect failed.
    Failed,
}

/// What the supervisor has waited for.
#[derive(Clone, Copy, Debug, PartialEq, Eq, Structural)]
pub enum SupervisorEvent {
    /// The owner dropped the session.
    Dropped,
    /// The collector of pre-game events ended because its source is gone.
    CollectorEnded,
    /// The listener came back.
    Accepted(Accepted),
    /// The lobby exchange ended.
    LobbyDone(LobbyAction),
    /// The lobby exchange failed.
    LobbyFailed,
    /// The load screen ended, as its last step said.
    LoadDone(LoadNext),
    /// The game ended, one way or another.
    GameDone,
}

/// What a proxy session tells its owner.
#[derive(Clone, Copy, Debug, PartialEq, Eq, Structural)]
pub enum LanEvent {
    /// The session is over.
    GameDisconnected,
}

/// What the supervisor does next.
#[derive(Clone, Copy, Debug, PartialEq, Eq, Structural)]
pub enum SupervisorAction {
    /// Nothing new: go on waiting as before.
    Idle,
    /// Close the client connection, if one is open, and wait for the next.
    Accept,
    /// Run the lobby exchange on the connection that was accepted.
    RunLobby,
    /// Stop the collector, take what it collected and run the load screen.
    RunLoad,
    /// Run the game on the connection.
    RunGame,
    /// Tell the owner, and stop.
    Emit(LanEvent),
}

/// The rule of the supervisor: where a session goes from `stage` on `ev`,
/// and what is to be done then.
///
/// A dropped session ends wherever it stands. In the lobby, a failed
/// connection attempt is passed over and a client that leaves makes room
/// for the next. A load screen that the client leaves leads back to the
/// lobby; one that ends because the game runs, or because no more news of
/// other players can come, leads into the game. An event that has no
/// meaning at a stage changes nothing. A session that has ended stays
/// ended and says nothing more.
pub open spec fn supervise(stage: Stage, ev: SupervisorEvent) -> (Stage, SupervisorAction) {
    let end = (Stage::Ended, SupervisorAction::Emit(LanEvent::GameDisconnected));
    let stay = (stage, SupervisorAction::Idle);
    match stage {
        Stage::Ended => stay,
        Stage::Accepting => match ev {
            SupervisorEvent::Dropped => end,
            SupervisorEvent::CollectorEnded => end,
            SupervisorEvent::Accepted(Accepted::Stream) => (Stage::Lobby, SupervisorAction::RunLobby),
            SupervisorEvent::Accepted(Accepted::Closed) => end,
            SupervisorEvent::Accepted(Accepted::Failed) => (Stage::Accepting, SupervisorAction::Accept),
            _ => stay,
        },
        Stage::Lobby => match ev {
            SupervisorEvent::Dropped => end,
            SupervisorEvent::CollectorEnded => end,
            SupervisorEvent::LobbyDone(LobbyAction::Start) => (Stage::Load, SupervisorAction::RunLoad),
            SupervisorEvent::LobbyDone(LobbyAction::Leave) => (Stage::Accepting, SupervisorAction::Accept),
            SupervisorEvent::LobbyFailed => end,
            _ => stay,
        },
        Stage::Load => match ev {
            SupervisorEvent::Dropped => end,
            SupervisorEvent::CollectorEnded => end,
            SupervisorEvent::LoadDone(LoadNext::Running) => (Stage::InGame, SupervisorAction::RunGame),
            SupervisorEvent::LoadDone(LoadNext::EventsClosed) => (Stage::InGame, SupervisorAction::RunGame),
            SupervisorEvent::LoadDone(LoadNext::Left) => (Stage::Accepting, SupervisorAction::Accept),
            SupervisorEvent::LoadDone(LoadNext::Failed(_)) => end,
            _ => stay,
        },
        Stage::InGame => match ev {
            SupervisorEvent::Dropped => end,
            SupervisorEvent::GameDone => end,
            _ => stay,
        },
    }
}

/// The supervisor's view of one proxy session.
pub struct Supervisor {
    stage: Stage,
}

impl Supervisor {
    pub closed spec fn stage(&self) -> Stage {
        self.stage
    }

    /// The phase that a stage belongs to.
    pub open spec fn phase_of(stage: Stage) -> Phase {
        match stage {
            Stage::Accepting => Phase::Lobby,
            Stage::Lobby => Phase::Lobby,
            Stage::Load => Phase::Load,
            Stage::InGame => Phase::InGame,
            Stage::Ended => Phase::Ended,
        }
    }

    /// A session that waits for its game client.
    pub fn new() -> (s: Self)
        ensures
            s.stage() == Stage::Accepting,
    {
        Supervisor { stage: Stage::Accepting }
    }

    pub fn current_stage(&self) -> (stage: Stage)
        ensures
            stage == self.stage(),
    {
        self.stage
    }

    pub fn phase(&self) -> (phase: Phase)
        ensures
            phase == Self::phase_of(self.stage()),
    {
        match self.stage {
            Stage::Accepting => Phase::Lobby,
            Stage::Lobby => Phase::Lobby,
            Stage::Load => Phase::Load,
            Stage::InGame => Phase::InGame,
            Stage::Ended => Phase::Ended,
        }
    }

    /// Takes an event and says what to do next, as `supervise` rules.
    pub fn step(&mut self, ev: SupervisorEvent) -> (action: SupervisorAction)
        ensures
            (final(self).stage(), action) == supervise(old(self).stage(), ev),
    {
        let end = SupervisorAction::Emit(LanEvent::GameDisconnected);
        let (stage, action) = match self.stage {
            Stage::Ended => (Stage::Ended, SupervisorAction::Idle),
            Stage::Accepting => match ev {
                SupervisorEvent::Dropped => (Stage::Ended, end),
                SupervisorEvent::CollectorEnded => (Stage::Ended, end),
                SupervisorEvent::Accepted(Accepted::Stream) => (Stage::Lobby, SupervisorAction::RunLobby),
                SupervisorEvent::Accepted(Accepted::Closed) => (Stage::Ended, end),
                SupervisorEvent::Accepted(Accepted::Failed) => (Stage::Accepting, SupervisorAction::Accept),
                _ => (Stage::Accepting, SupervisorAction::Idle),
            },
            Stage::Lobby => match ev {
                SupervisorEvent::Dropped => (Stage::Ended, end),
                SupervisorEvent::CollectorEnded => (Stage::Ended, end),
                SupervisorEvent::LobbyDone(LobbyAction::Start) => (Stage::Load, SupervisorAction::RunLoad),
                SupervisorEvent::LobbyDone(LobbyAction::Leave) => (
                    Stage::Accepting,
                    SupervisorAction::Accept,
                ),
                SupervisorEvent::LobbyFailed => (Stage::Ended, end),
                _ => (Stage::Lobby, SupervisorAction::Idle),
            },
            Stage::Load => match ev {
                SupervisorEvent::Dropped => (Stage::Ended, end),
                SupervisorEvent::CollectorEnded => (Stage::Ended, end),
                SupervisorEvent::LoadDone(LoadNext::Running) => (Stage::InGame, SupervisorAction::RunGame),
                SupervisorEvent::LoadDone(LoadNext::EventsClosed) => (
                    Stage::InGame,
                    SupervisorAction::RunGame,
                ),
                SupervisorEvent::LoadDone(LoadNext::Left) => (Stage::Accepting, SupervisorAction::Accept),
                SupervisorEvent::LoadDone(LoadNext::Failed(_)) => (Stage::Ended, end),
                _ => (Stage::Load, SupervisorAction::Idle),
            },
            Stage::InGame => match ev {
                SupervisorEvent::Dropped => (Stage::Ended, end),
                SupervisorEvent::GameDone => (Stage::Ended, end),
                _ => (Stage::InGame, SupervisorAction::Idle),
            },
        };
        self.stage = stage;
        action
    }
}

/// Where a session stands after a run of events.
pub open spec fn stage_after(stage: Stage, events: Seq<SupervisorEvent>) -> Stage
    decreases events.len(),
{
    if events.len() == 0 {
        stage
    } else {
        supervise(stage_after(stage, events.drop_last()), events.last()).0
    }
}

/// How often the owner is told that the session is over, in a run of events.
pub open spec fn disconnects(stage: Stage, events: Seq<SupervisorEvent>) -> nat
    decreases events.len(),
{
    if events.len() == 0 {
        0
    } else {
        let earlier = disconnects(stage, events.drop_last());
        let last = supervise(stage_after(stage, events.drop_last()), events.last()).1;
        if last == SupervisorAction::Emit(LanEvent::GameDisconnected) {
            earlier + 1
        } else {
            earlier
        }
    }
}

/// Whatever happens to a session, its owner is told at most once that it is
/// over: exactly once if the session comes to its end during the run, and
/// never again afterwards. A session that is dropped has come to its end.
pub proof fn lemma_one_disconnect(stage: Stage, events: Seq<SupervisorEvent>)
    ensures
        disconnects(stage, events) == (if stage != Stage::Ended && stage_after(stage, events)
            == Stage::Ended {
            1nat
        } else {
            0nat
        }),
        stage == Stage::Ended ==> stage_after(stage, events) == Stage::Ended,
        events.contains(SupervisorEvent::Dropped) ==> stage_after(stage, events) == Stage::Ended,
    decreases events.len(),
{
    if events.len() > 0 {
        let earlier = events.drop_last();
        lemma_one_disconnect(stage, earlier);
        if events.contains(SupervisorEvent::Dropped) {
            let i = choose|i: int| 0 <= i < events.len() && events[i] == SupervisorEvent::Dropped;
            if i < earlier.len() {
                assert(earlier[i] == SupervisorEvent::Dropped);
                assert(earlier.contains(SupervisorEvent::Dropped));
            } else {
                assert(events.last() == SupervisorEvent::Dropped);
            }
        }
    }
}

/// What reaches the proxy while the game runs.
#[derive(Debug)]
pub enum RelayEvent {
    /// A packet from the game client, or `None` when it closed the stream.
    Client(Option<Packet>),
    /// A packet from the node, or `None` when the node's stream ended.
    Node(Option<Packet>),
}

/// Where a packet goes.
#[derive(Debug, PartialEq, Eq)]
pub enum RelayAction {
    ToNode(Packet),
    ToClient(Packet),
}

/// The in-game handler's answer to one event: a packet to pass on, if any,
/// and whether the game phase is over.
#[derive(Debug)]
pub struct RelayStep {
    pub action: Option<RelayAction>,
    pub done: bool,
}

/// The in-game rule: whatever the client sends goes to the node as it is,
/// and whatever the node sends goes to the client. The one exception is the
/// client's request to leave, which is confirmed to the client and ends the
/// phase. A stream that closes ends the phase too.
pub open spec fn relay_rule(ev: RelayEvent) -> (Option<RelayAction>, bool) {
    match ev {
        RelayEvent::Client(Some(Packet::LeaveReq(_))) => (Some(RelayAction::ToClient(Packet::LeaveAck)), true),
        RelayEvent::Client(Some(packet)) => (Some(RelayAction::ToNode(packet)), false),
        RelayEvent::Client(None) => (None, true),
        RelayEvent::Node(Some(packet)) => (Some(RelayAction::ToClient(packet)), false),
        RelayEvent::Node(None) => (None, true),
    }
}

/// Answers one event of the running game.
pub fn relay(ev: RelayEvent) -> (step: RelayStep)
    ensures
        (step.action, step.done) == relay_rule(ev),
{
    match ev {
        RelayEvent::Client(Some(Packet::LeaveReq(_))) => RelayStep {
            action: Some(RelayAction::ToClient(Packet::LeaveAck)),
            done: true,
        },
        RelayEvent::Client(Some(packet)) => RelayStep { action: Some(RelayAction::ToNode(packet)), done: false },
        RelayEvent::Client(None) => RelayStep { action: None, done: true },
        RelayEvent::Node(Some(packet)) => RelayStep { action: Some(RelayAction::ToClient(packet)), done: false },
        RelayEvent::Node(None) => RelayStep { action: None, done: true },
    }
}

/// What ends a lobby exchange.
#[derive(Debug)]
pub enum LobbyEvent {
    /// A packet from the game client.
    Client(Packet),
    /// The client's stream failed or carried something unreadable.
    ClientFailed,
    /// The node's latest word on the game.
    NodeStatus(NodeGameStatus),
}

/// Whether an event ends the lobby exchange, and how: the game starts when
/// the node reports that it is loading; the client leaves by asking to, or
/// by failing.
pub open spec fn lobby_rule(ev: LobbyEvent) -> Option<LobbyAction> {
    match ev {
        LobbyEvent::Client(Packet::LeaveReq(_)) => Some(LobbyAction::Leave),
        LobbyEvent::Client(_) => None,
        LobbyEvent::ClientFailed => Some(LobbyAction::Leave),
        LobbyEvent::NodeStatus(NodeGameStatus::Loading) => Some(LobbyAction::Start),
        LobbyEvent::NodeStatus(_) => None,
    }
}

/// Says whether an event ends the lobby exchange, and how.
pub fn lobby_outcome(ev: &LobbyEvent) -> (r: Option<LobbyAction>)
    ensures
        r == lobby_rule(*ev),
{
    match ev {
        LobbyEvent::Client(Packet::LeaveReq(_)) => Some(LobbyAction::Leave),
        LobbyEvent::Client(_) => None,
        LobbyEvent::ClientFailed => Some(LobbyAction::Leave),
        LobbyEvent::NodeStatus(NodeGameStatus::Loading) => Some(LobbyAction::Start),
        LobbyEvent::NodeStatus(_) => None,
    }
}

} // verus!
