//! The load screen of the LAN proxy: what the proxy tells the local game
//! client and the node while the players load the map.
//!
//! The handler is a state machine. Whoever owns the sockets feeds it one
//! event at a time and carries out the actions it answers with, in order.

use vstd::prelude::*;
use crate::idmap::IdMap;
use crate::status::{NodeGameStatus, SlotClientStatus};
use crate::w3gs::Packet;

verus! {

/// Why a phase of the proxy ended in failure.
#[derive(Clone, Copy, Debug, PartialEq, Eq, Structural)]
pub enum Error {
    /// The supervisor or one of its channels is gone.
    TaskCancelled,
    /// The game client closed its connection while more was expected.
    StreamClosed,
    /// A player has no slot in the game description.
    SlotNotResolved,
    /// The node reported a status that cannot follow the load screen.
    UnexpectedNodeGameStatus(NodeGameStatus),
}

/// A player as the game description names them.
#[derive(Debug)]
pub struct LanPlayer {
    pub id: i32,
    pub name: String,
}

/// One of the game's slots, with the status last known of its client.
#[derive(Debug)]
pub struct LanSlot {
    pub player: Option<LanPlayer>,
    pub client_status: SlotClientStatus,
}

/// The game as the proxy's owner describes it.
#[derive(Debug)]
pub struct LanGame {
    pub game_id: i32,
    pub player_id: i32,
    pub slots: Vec<LanSlot>,
}

/// Where a player sits: the player's id and name, and the 1-based slot id
/// that the game client knows the player by.
#[derive(Debug)]
pub struct LanSlotPlayerInfo {
    pub slot_player_id: u8,
    pub player_id: i32,
    pub name: String,
}

/// The local player's own slot id and the seats of all players.
#[derive(Debug)]
pub struct LanSlotInfo {
    pub slot_player_id: u8,
    pub player_infos: Vec<LanSlotPlayerInfo>,
}

/// Everything about a game that is fixed once the proxy starts.
#[derive(Debug)]
pub struct LanGameInfo {
    pub game: LanGame,
    pub slot_info: LanSlotInfo,
}

/// What the node tells the proxy about other players before the game runs.
#[derive(Clone, Copy, Debug, PartialEq, Eq, Structural)]
pub enum PreGameEvent {
    PlayerStatusChange { player_id: i32, status: SlotClientStatus },
}

/// The statuses that a game description starts from: one entry per slot
/// that has a player. Where a player sits in two slots, the later counts.
pub open spec fn initial_statuses(slots: Seq<LanSlot>) -> Map<i32, SlotClientStatus>
    decreases slots.len(),
{
    if slots.len() == 0 {
        Map::empty()
    } else {
        let rest = initial_statuses(slots.drop_last());
        match slots.last().player {
            Some(player) => rest.insert(player.id, slots.last().client_status),
            None => rest,
        }
    }
}

/// Keeps the latest status of every player while the proxy is in the lobby.
pub struct PreGameCollector {
    map: IdMap<SlotClientStatus>,
}

impl PreGameCollector {
    pub closed spec fn wf(&self) -> bool {
        self.map.wf()
    }

    /// Latest known status, by player id.
    pub closed spec fn statuses(&self) -> Map<i32, SlotClientStatus> {
        self.map.as_map()
    }

    /// Starts from the statuses in the game description.
    pub fn new(initial: &LanGameInfo) -> (collector: Self)
        ensures
            collector.wf(),
            collector.statuses() == initial_statuses(initial.game.slots@),
    {
        let slots = &initial.game.slots;
        let mut map: IdMap<SlotClientStatus> = IdMap::new();
        let mut i: usize = 0;
        assert(slots@.take(0) =~= Seq::<LanSlot>::empty());
        while i < slots.len()
            invariant
                i <= slots.len(),
                map.wf(),
                map.as_map() == initial_statuses(slots@.take(i as int)),
            decreases slots.len() - i,
        {
            proof {
                assert(slots@.take(i + 1).drop_last() =~= slots@.take(i as int));
            }
            match &slots[i].player {
                Some(player) => {
                    map.insert(player.id, slots[i].client_status);
                },
                None => {},
            }
            i += 1;
        }
        assert(slots@.take(slots.len() as int) =~= slots@);
        PreGameCollector { map }
    }

    /// Takes note of an event: the player's status is now the one it names.
    pub fn record(&mut self, evt: PreGameEvent)
        requires
            old(self).wf(),
        ensures
            final(self).wf(),
            match evt {
                PreGameEvent::PlayerStatusChange { player_id, status } => final(self).statuses() == old(
                    self,
                ).statuses().insert(player_id, status),
            },
    {
        match evt {
            PreGameEvent::PlayerStatusChange { player_id, status } => {
                self.map.insert(player_id, status);
            },
        }
    }

    /// What was collected so far, for reading.
    pub fn collected(&self) -> (map: &IdMap<SlotClientStatus>)
        requires
            self.wf(),
        ensures
            map.wf(),
            map.as_map() == self.statuses(),
    {
        &self.map
    }

    /// Hands over what was collected, for the load screen.
    pub fn finish(self) -> (map: IdMap<SlotClientStatus>)
        requires
            self.wf(),
        ensures
            map.wf(),
            map.as_map() == self.statuses(),
    {
        self.map
    }
}

/// The slot id of the first seat that `player_id` has, if any.
pub open spec fn seat_of(infos: Seq<LanSlotPlayerInfo>, player_id: i32) -> Option<u8>
    decreases infos.len(),
{
    if infos.len() == 0 {
        None
    } else if infos.first().player_id == player_id {
        Some(infos.first().slot_player_id)
    } else {
        seat_of(infos.drop_first(), player_id)
    }
}

/// The packet that tells the game client that `player_id` has loaded.
pub fn get_player_loaded_packet(info: &LanGameInfo, player_id: i32) -> (r: Result<Packet, Error>)
    ensures
        match seat_of(info.slot_info.player_infos@, player_id) {
            Some(slot_player_id) => r == Ok::<Packet, Error>(
                Packet::PlayerLoaded { player_id: slot_player_id },
            ),
            None => r == Err::<Packet, Error>(Error::SlotNotResolved),
        },
{
    let infos = &info.slot_info.player_infos;
    let mut i: usize = 0;
    assert(infos@.skip(0) =~= infos@);
    while i < infos.len()
        invariant
            i <= infos.len(),
            infos@ == info.slot_info.player_infos@,
            seat_of(infos@, player_id) == seat_of(infos@.skip(i as int), player_id),
        decreases infos.len() - i,
    {
        proof {
            assert(infos@.skip(i as int).drop_first() =~= infos@.skip(i + 1));
            assert(infos@.skip(i as int).len() > 0);
            assert(infos@.skip(i as int).first() == infos@[i as int]);
        }
        if infos[i].player_id == player_id {
            return Ok(Packet::PlayerLoaded { player_id: infos[i].slot_player_id });
        }
        i += 1;
    }
    Err(Error::SlotNotResolved)
}

/// What reaches the load screen.
#[derive(Debug)]
pub enum LoadEvent {
    /// A packet from the game client, or `None` when it closed the stream.
    Client(Option<Packet>),
    /// News of another player, or `None` when no more will come.
    PreGame(Option<PreGameEvent>),
    /// The node's latest word on the game, if it has said anything yet;
    /// `None` when the supervisor that passes it on is gone.
    NodeStatus(Option<Option<NodeGameStatus>>),
}

/// What the load screen wants done.
#[derive(Debug, PartialEq, Eq)]
pub enum LoadAction {
    /// Report the local client's status to the node; a failure ends the phase.
    Report(SlotClientStatus),
    /// Report the local client's status to the node; a failure is passed over.
    ReportBestEffort(SlotClientStatus),
    /// Send a packet to the game client.
    Send(Packet),
    /// Send the packets to the game client, in order.
    SendAll(Vec<Packet>),
    /// Flush the connection to the game client.
    Flush,
}

/// How the load screen goes on after an event.
#[derive(Clone, Copy, Debug, PartialEq, Eq, Structural)]
pub enum LoadNext {
    /// Wait for the next event.
    Continue,
    /// The node says the game runs: the phase is over and the game begins.
    Running,
    /// The client asked to leave: the phase is over and the lobby reopens.
    Left,
    /// No more news of other players will come: the phase is over.
    EventsClosed,
    /// The phase failed.
    Failed(Error),
}

/// The load screen's answer to one event: what to do, in order, and how to
/// go on after that.
#[derive(Debug)]
pub struct LoadStep {
    pub actions: Vec<LoadAction>,
    pub next: LoadNext,
}

/// The remote player whom an event reports as loaded and who has not been
/// announced to the game client yet.
pub open spec fn newly_loaded(me: i32, sent: Seq<i32>, ev: LoadEvent) -> Option<i32> {
    match ev {
        LoadEvent::PreGame(
            Some(PreGameEvent::PlayerStatusChange { player_id, status: SlotClientStatus::Loaded }),
        ) => if player_id != me && !sent.contains(player_id) {
            Some(player_id)
        } else {
            None
        },
        _ => None,
    }
}

/// The players announced to the game client, after an event.
pub open spec fn sent_after(me: i32, infos: Seq<LanSlotPlayerInfo>, sent: Seq<i32>, ev: LoadEvent) -> Seq<
    i32,
> {
    match newly_loaded(me, sent, ev) {
        Some(player_id) => if seat_of(infos, player_id) is Some {
            sent.push(player_id)
        } else {
            sent
        },
        None => sent,
    }
}

/// What the load screen wants done about an event.
pub open spec fn actions_for(
    me: i32,
    my_slot: u8,
    infos: Seq<LanSlotPlayerInfo>,
    sent: Seq<i32>,
    ev: LoadEvent,
) -> Seq<LoadAction> {
    match ev {
        LoadEvent::Client(Some(Packet::GameLoadedSelf)) => seq![
            LoadAction::Send(Packet::PlayerLoaded { player_id: my_slot }),
            LoadAction::Report(SlotClientStatus::Loaded),
        ],
        LoadEvent::Client(Some(Packet::LeaveReq(_))) => seq![
            LoadAction::ReportBestEffort(SlotClientStatus::Connected),
            LoadAction::Send(Packet::LeaveAck),
            LoadAction::Flush,
        ],
        _ => match newly_loaded(me, sent, ev) {
            Some(player_id) => match seat_of(infos, player_id) {
                Some(slot_player_id) => seq![
                    LoadAction::Send(Packet::PlayerLoaded { player_id: slot_player_id }),
                ],
                None => Seq::empty(),
            },
            None => Seq::empty(),
        },
    }
}

/// How the load screen goes on after an event.
pub open spec fn next_for(me: i32, infos: Seq<LanSlotPlayerInfo>, sent: Seq<i32>, ev: LoadEvent) -> LoadNext {
    match ev {
        LoadEvent::Client(Some(Packet::LeaveReq(_))) => LoadNext::Left,
        LoadEvent::Client(Some(_)) => LoadNext::Continue,
        LoadEvent::Client(None) => LoadNext::Failed(Error::StreamClosed),
        LoadEvent::PreGame(Some(_)) => match newly_loaded(me, sent, ev) {
            Some(player_id) => if seat_of(infos, player_id) is Some {
                LoadNext::Continue
            } else {
                LoadNext::Failed(Error::SlotNotResolved)
            },
            None => LoadNext::Continue,
        },
        LoadEvent::PreGame(None) => LoadNext::EventsClosed,
        LoadEvent::NodeStatus(None) => LoadNext::Failed(Error::TaskCancelled),
        LoadEvent::NodeStatus(Some(None)) => LoadNext::Continue,
        LoadEvent::NodeStatus(Some(Some(NodeGameStatus::Loading))) => LoadNext::Continue,
        LoadEvent::NodeStatus(Some(Some(NodeGameStatus::Running))) => LoadNext::Running,
        LoadEvent::NodeStatus(Some(Some(other))) => LoadNext::Failed(
            Error::UnexpectedNodeGameStatus(other),
        ),
    }
}

/// The remote players that the statuses at the places from `from` on report
/// as loaded, in order.
pub open spec fn loaded_remotes(
    me: i32,
    keys: Seq<i32>,
    statuses: Seq<SlotClientStatus>,
    upto: int,
) -> Seq<i32>
    decreases upto,
{
    if upto <= 0 {
        Seq::empty()
    } else {
        let rest = loaded_remotes(me, keys, statuses, upto - 1);
        if statuses[upto - 1] == SlotClientStatus::Loaded && keys[upto - 1] != me {
            rest.push(keys[upto - 1])
        } else {
            rest
        }
    }
}

/// Whether every one of `players` has a seat.
pub open spec fn all_seated(infos: Seq<LanSlotPlayerInfo>, players: Seq<i32>) -> bool {
    forall|i: int| 0 <= i < players.len() ==> seat_of(infos, #[trigger] players[i]) is Some
}

/// The announcements for `players`, in order.
pub open spec fn loaded_packets(infos: Seq<LanSlotPlayerInfo>, players: Seq<i32>) -> Seq<Packet> {
    players.map_values(|p: i32| Packet::PlayerLoaded { player_id: seat_of(infos, p)->0 })
}

/// The load screen of one proxy session.
pub struct LoadScreen {
    my_player_id: i32,
    my_slot_player_id: u8,
    loaded_sent: Vec<i32>,
}

impl LoadScreen {
    /// The local player.
    pub closed spec fn me(&self) -> i32 {
        self.my_player_id
    }

    /// The slot id that the game client knows the local player by.
    pub closed spec fn my_slot(&self) -> u8 {
        self.my_slot_player_id
    }

    /// The remote players that were announced to the game client as loaded.
    pub closed spec fn sent(&self) -> Seq<i32> {
        self.loaded_sent@
    }

    /// No player was announced twice, and the local player not at all.
    pub open spec fn wf(&self) -> bool {
        self.sent().no_duplicates() && !self.sent().contains(self.me())
    }

    /// Enters the load screen. The node is told that the client is loading.
    /// Then every remote player whom `initial` knows as loaded is announced
    /// to the game client, in ascending order of player id and in one batch.
    /// A loaded player without a seat fails the phase before anything is sent
    /// to the client.
    pub fn enter(info: &LanGameInfo, initial: &IdMap<SlotClientStatus>) -> (r: (LoadScreen, LoadStep))
        requires
            initial.wf(),
        ensures
            r.0.me() == info.game.player_id,
            r.0.my_slot() == info.slot_info.slot_player_id,
            r.0.wf(),
            ({
                let loaded = loaded_remotes(
                    info.game.player_id,
                    initial.keys(),
                    initial.values(),
                    initial.keys().len() as int,
                );
                let infos = info.slot_info.player_infos@;
                if !all_seated(infos, loaded) {
                    &&& r.1.next == LoadNext::Failed(Error::SlotNotResolved)
                    &&& r.1.actions@ == seq![LoadAction::Report(SlotClientStatus::Loading)]
                } else if loaded.len() == 0 {
                    &&& r.1.next == LoadNext::Continue
                    &&& r.1.actions@ == seq![LoadAction::Report(SlotClientStatus::Loading)]
                    &&& r.0.sent() == loaded
                } else {
                    &&& r.1.next == LoadNext::Continue
                    &&& r.0.sent() == loaded
                    &&& r.1.actions@.len() == 2
                    &&& r.1.actions@[0] == LoadAction::Report(SlotClientStatus::Loading)
                    &&& r.1.actions@[1] matches LoadAction::SendAll(packets)
                    &&& packets@ == loaded_packets(infos, loaded)
                }
            }),
    {
        let me = info.game.player_id;
        let ghost infos = info.slot_info.player_infos@;
        let ghost keys = initial.keys();
        let ghost statuses = initial.values();
        let mut loaded_sent: Vec<i32> = Vec::new();
        let mut packets: Vec<Packet> = Vec::new();
        let mut actions: Vec<LoadAction> = Vec::new();
        actions.push(LoadAction::Report(SlotClientStatus::Loading));
        let n = initial.len();
        let mut i: usize = 0;
        while i < n
            invariant
                i <= n,
                n == keys.len(),
                initial.wf(),
                keys == initial.keys(),
                statuses == initial.values(),
                infos == info.slot_info.player_infos@,
                me == info.game.player_id,
                actions@ == seq![LoadAction::Report(SlotClientStatus::Loading)],
                loaded_sent@ == loaded_remotes(me, keys, statuses, i as int),
                all_seated(infos, loaded_sent@),
                packets@ == loaded_packets(infos, loaded_sent@),
                forall|j: int| 0 <= j < loaded_sent.len() ==> exists|k: int|
                    0 <= k < i && keys[k] == #[trigger] loaded_sent@[j],
                loaded_sent@.no_duplicates(),
                !loaded_sent@.contains(me),
            decreases n - i,
        {
            let player_id = initial.key_at(i);
            let status = *initial.value_at(i);
            let ghost before = loaded_sent@;
            match status {
                SlotClientStatus::Loaded => {
                    if player_id != me {
                        loaded_sent.push(player_id);
                        match get_player_loaded_packet(info, player_id) {
                            Ok(packet) => {
                                packets.push(packet);
                                proof {
                                    assert(packets@ =~= loaded_packets(infos, loaded_sent@));
                                }
                            },
                            Err(e) => {
                                proof {
                                    lemma_loaded_remotes_grow(me, keys, statuses, i as int + 1, n as int);
                                    let all = loaded_remotes(me, keys, statuses, n as int);
                                    assert(all[before.len() as int] == player_id);
                                }
                                let state = LoadScreen {
                                    my_player_id: me,
                                    my_slot_player_id: info.slot_info.slot_player_id,
                                    loaded_sent: Vec::new(),
                                };
                                return (state, LoadStep { actions, next: LoadNext::Failed(e) });
                            },
                        }
                        proof {
                            assert forall|j: int| 0 <= j < loaded_sent.len() implies exists|k: int|
                                0 <= k < i + 1 && keys[k] == #[trigger] loaded_sent@[j] by {
                                if j < before.len() {
                                    let k = choose|k: int| 0 <= k < i && keys[k] == before[j];
                                    assert(keys[k] == loaded_sent@[j]);
                                } else {
                                    assert(keys[i as int] == loaded_sent@[j]);
                                }
                            }
                            assert(!before.contains(player_id)) by {
                                if before.contains(player_id) {
                                    let j = choose|j: int| 0 <= j < before.len() && before[j] == player_id;
                                    let k = choose|k: int| 0 <= k < i && keys[k] == before[j];
                                    assert(keys[k] < keys[i as int]);
                                }
                            }
                            assert(loaded_sent@.no_duplicates());
                            assert(!loaded_sent@.contains(me)) by {
                                if loaded_sent@.contains(me) {
                                    let j = choose|j: int| 0 <= j < loaded_sent@.len() && loaded_sent@[j] == me;
                                    if j < before.len() {
                                        assert(before[j] == me);
                                    }
                                }
                            }
                        }
                    }
                },
                _ => {},
            }
            proof {
                assert forall|j: int| 0 <= j < loaded_sent.len() implies exists|k: int|
                    0 <= k < i + 1 && keys[k] == #[trigger] loaded_sent@[j] by {
                    if j < before.len() {
                        let k = choose|k: int| 0 <= k < i && keys[k] == before[j];
                        assert(keys[k] == loaded_sent@[j]);
                    } else {
                        assert(keys[i as int] == loaded_sent@[j]);
                    }
                }
            }
            i += 1;
        }
        if packets.len() > 0 {
            actions.push(LoadAction::SendAll(packets));
        }
        let state = LoadScreen {
            my_player_id: me,
            my_slot_player_id: info.slot_info.slot_player_id,
            loaded_sent,
        };
        (state, LoadStep { actions, next: LoadNext::Continue })
    }

    /// Answers one event.
    ///
    /// When the client reports that it has loaded, it is shown its own slot
    /// as loaded and the node is told. When the client asks to leave, the
    /// node is told that the client is merely connected again, the client
    /// gets its confirmation, and the lobby reopens. When the node reports a
    /// remote player as loaded for the first time, the client is told, once.
    /// When the node says that the game runs, the phase is over. Any other
    /// status but `Loading` fails the phase.
    pub fn step(&mut self, info: &LanGameInfo, ev: LoadEvent) -> (r: LoadStep)
        requires
            old(self).wf(),
        ensures
            final(self).wf(),
            final(self).me() == old(self).me(),
            final(self).my_slot() == old(self).my_slot(),
            final(self).sent() == sent_after(
                old(self).me(),
                info.slot_info.player_infos@,
                old(self).sent(),
                ev,
            ),
            r.actions@ == actions_for(
                old(self).me(),
                old(self).my_slot(),
                info.slot_info.player_infos@,
                old(self).sent(),
                ev,
            ),
            r.next == next_for(old(self).me(), info.slot_info.player_infos@, old(self).sent(), ev),
    {
        let mut actions: Vec<LoadAction> = Vec::new();
        let mut next = LoadNext::Continue;
        match ev {
            LoadEvent::Client(Some(packet)) => match packet {
                Packet::GameLoadedSelf => {
                    actions.push(LoadAction::Send(Packet::PlayerLoaded { player_id: self.my_slot_player_id }));
                    actions.push(LoadAction::Report(SlotClientStatus::Loaded));
                },
                Packet::LeaveReq(_) => {
                    actions.push(LoadAction::ReportBestEffort(SlotClientStatus::Connected));
                    actions.push(LoadAction::Send(Packet::LeaveAck));
                    actions.push(LoadAction::Flush);
                    next = LoadNext::Left;
                },
                _ => {},
            },
            LoadEvent::Client(None) => {
                next = LoadNext::Failed(Error::StreamClosed);
            },
            LoadEvent::PreGame(Some(PreGameEvent::PlayerStatusChange { player_id, status })) => {
                match status {
                    SlotClientStatus::Loaded => {
                        if player_id != self.my_player_id && !crate::broadcast::list_contains(
                            self.loaded_sent.as_slice(),
                            player_id,
                        ) {
                            match get_player_loaded_packet(info, player_id) {
                                Ok(packet) => {
                                    actions.push(LoadAction::Send(packet));
                                    self.loaded_sent.push(player_id);
                                    proof {
                                        let before = old(self).sent();
                                        assert(self.loaded_sent@ == before.push(player_id));
                                        assert(!self.loaded_sent@.contains(self.my_player_id)) by {
                                            if self.loaded_sent@.contains(self.my_player_id) {
                                                let j = choose|j: int|
                                                    0 <= j < self.loaded_sent@.len() && self.loaded_sent@[j]
                                                        == self.my_player_id;
                                                if j < before.len() {
                                                    assert(before[j] == self.my_player_id);
                                                }
                                            }
                                        }
                                    }
                                },
                                Err(e) => {
                                    next = LoadNext::Failed(e);
                                },
                            }
                        }
                    },
                    _ => {},
                }
            },
            LoadEvent::PreGame(None) => {
                next = LoadNext::EventsClosed;
            },
            LoadEvent::NodeStatus(None) => {
                next = LoadNext::Failed(Error::TaskCancelled);
            },
            LoadEvent::NodeStatus(Some(None)) => {},
            LoadEvent::NodeStatus(Some(Some(status))) => match status {
                NodeGameStatus::Loading => {},
                NodeGameStatus::Running => {
                    next = LoadNext::Running;
                },
                other => {
                    next = LoadNext::Failed(Error::UnexpectedNodeGameStatus(other));
                },
            },
        }
        assert(actions@ =~= actions_for(
            old(self).me(),
            old(self).my_slot(),
            info.slot_info.player_infos@,
            old(self).sent(),
            ev,
        ));
        LoadStep { actions, next }
    }
}

/// What is reported as loaded up to a place stays reported, in place, when
/// more places are looked at.
pub proof fn lemma_loaded_remotes_grow(
    me: i32,
    keys: Seq<i32>,
    statuses: Seq<SlotClientStatus>,
    upto: int,
    further: int,
)
    requires
        0 <= upto <= further,
    ensures
        loaded_remotes(me, keys, statuses, upto).len() <= loaded_remotes(me, keys, statuses, further).len(),
        forall|j: int|
            0 <= j < loaded_remotes(me, keys, statuses, upto).len() ==> loaded_remotes(
                me,
                keys,
                statuses,
                further,
            )[j] == loaded_remotes(me, keys, statuses, upto)[j],
    decreases further - upto,
{
    if upto < further {
        lemma_loaded_remotes_grow(me, keys, statuses, upto, further - 1);
    }
}

/// The players that a run of events gets announced, in order.
pub open spec fn announced(me: i32, infos: Seq<LanSlotPlayerInfo>, sent: Seq<i32>, events: Seq<LoadEvent>) -> Seq<
    i32,
>
    decreases events.len(),
{
    if events.len() == 0 {
        sent
    } else {
        sent_after(me, infos, announced(me, infos, sent, events.drop_last()), events.last())
    }
}

/// Whatever events reach the load screen, and in whatever order, no remote
/// player is announced to the game client twice, and what was announced
/// stays announced.
pub proof fn lemma_announced_once(
    me: i32,
    infos: Seq<LanSlotPlayerInfo>,
    sent: Seq<i32>,
    events: Seq<LoadEvent>,
)
    requires
        sent.no_duplicates(),
        !sent.contains(me),
    ensures
        announced(me, infos, sent, events).no_duplicates(),
        !announced(me, infos, sent, events).contains(me),
        sent.is_prefix_of(announced(me, infos, sent, events)),
    decreases events.len(),
{
    if events.len() > 0 {
        lemma_announced_once(me, infos, sent, events.drop_last());
        let before = announced(me, infos, sent, events.drop_last());
        let after = announced(me, infos, sent, events);
        match newly_loaded(me, before, events.last()) {
            Some(player_id) => {
                if seat_of(infos, player_id) is Some {
                    assert(after == before.push(player_id));
                    assert(!after.contains(me)) by {
                        if after.contains(me) {
                            let j = choose|j: int| 0 <= j < after.len() && after[j] == me;
                            if j < before.len() {
                                assert(before[j] == me);
                            }
                        }
                    }
                }
            },
            None => {},
        }
    }
}

} // verus!
