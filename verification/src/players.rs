//! The player table of one game on the node: every player's routing entry
//! with its outbound queue, and the fan-out of packets to those queues.

use vstd::prelude::*;
use tokio::sync::mpsc::Sender;
use crate::broadcast::{BroadcastTarget, Everyone};
use crate::clock::Tick;
use crate::idmap::IdMap;
use crate::sink::{pushed, try_send_frame, PlayerSendError};
use crate::slot::{index_to_player_id, slot_player_id_of};
use crate::status::PlayerBanType;
use crate::w3gs::{
    actions_view, w3gs_to_frame, ChatToHost, Frame, FrameView, Packet, PacketView, TimeSlot, TimeSlotView,
};

verus! {


/// Why the dispatcher could not handle a message.
#[derive(Clone, Copy, Debug, PartialEq, Eq, Structural)]
pub enum Error {
    /// The task that should take the result is gone.
    Cancelled,
    /// The message names a player who has no slot in this game.
    PlayerNotFoundInGame,
}

/// The player who sits in a slot.
#[derive(Debug)]
pub struct PlayerInfo {
    pub player_id: i32,
    pub ban_list: Vec<PlayerBanType>,
}

/// One occupied slot of a game: its index and its player.
#[derive(Debug)]
pub struct PlayerSlot {
    pub id: u32,
    pub player: PlayerInfo,
}

impl PlayerSlot {
    /// The 1-based id under which the slot's player appears on the wire.
    pub open spec fn slot_player_id(&self) -> u8 {
        slot_player_id_of(self.id as int) as u8
    }

    /// Whether the player is barred from in-game chat.
    pub open spec fn chat_banned(&self) -> bool {
        self.player.ban_list@.contains(PlayerBanType::Chat)
    }
}

/// What the contracts say of one player's routing entry.
pub struct PlayerView {
    pub slot_player_id: u8,
    pub ban_list: Seq<PlayerBanType>,
    /// `None` while the player has no queue; else the frames that the queue
    /// handle has taken, oldest first.
    pub sink: Option<Seq<FrameView>>,
    /// What the queue that was taken away last had taken by then.
    pub retired: Option<Seq<FrameView>>,
    /// Every frame that was handed to a queue of this player, whether the
    /// queue took it or refused it, oldest first.
    pub handed: Seq<FrameView>,
    pub ticks: usize,
    pub pending_ack_packets: Seq<PacketView>,
}

impl PlayerView {
    /// The entry of a player who has not connected yet.
    pub open spec fn fresh(slot: PlayerSlot) -> PlayerView {
        PlayerView {
            slot_player_id: slot.slot_player_id(),
            ban_list: slot.player.ban_list@,
            sink: None,
            retired: None,
            handed: Seq::empty(),
            ticks: 0,
            pending_ack_packets: Seq::empty(),
        }
    }

    pub open spec fn connected(self) -> bool {
        self.sink is Some
    }

    /// The same entry with another queue, or with none. A queue that goes
    /// is remembered as retired.
    pub open spec fn with_sink(self, sink: Option<Seq<FrameView>>) -> PlayerView {
        PlayerView {
            sink,
            retired: if self.sink is Some {
                self.sink
            } else {
                self.retired
            },
            ..self
        }
    }

    /// The same entry after `frame` was handed to its queue and the queue
    /// took it.
    pub open spec fn received(self, frame: FrameView) -> PlayerView
        recommends
            self.connected(),
    {
        PlayerView { sink: Some(self.sink->0.push(frame)), handed: self.handed.push(frame), ..self }
    }

    /// The same entry after `frame` was handed to its queue and the queue
    /// refused it: the queue holds what it held.
    pub open spec fn refused(self, frame: FrameView) -> PlayerView
        recommends
            self.connected(),
    {
        PlayerView { handed: self.handed.push(frame), ..self }
    }

    /// The same entry without a queue.
    pub open spec fn disconnected(self) -> PlayerView {
        self.with_sink(None)
    }
}

/// Views of a run of packets, in the same order.
pub open spec fn packets_view(packets: Seq<Packet>) -> Seq<PacketView> {
    packets.map_values(|p: Packet| p@)
}

/// Routing entry of one player.
pub struct PlayerDispatchInfo {
    ticks: usize,
    pending_ack_packets: Vec<Packet>,
    tx: Option<Sender<Frame>>,
    retired: Ghost<Option<Seq<FrameView>>>,
    handed: Ghost<Seq<FrameView>>,
    ban_list: Vec<PlayerBanType>,
    slot_player_id: u8,
}

impl View for PlayerDispatchInfo {
    type V = PlayerView;

    closed spec fn view(&self) -> PlayerView {
        PlayerView {
            slot_player_id: self.slot_player_id,
            ban_list: self.ban_list@,
            sink: match self.tx {
                Some(tx) => Some(pushed(tx)),
                None => None,
            },
            retired: self.retired@,
            handed: self.handed@,
            ticks: self.ticks,
            pending_ack_packets: packets_view(self.pending_ack_packets@),
        }
    }
}

/// What counts as the retired queue once `gone` has been taken away.
spec fn retired_after(gone: Option<Sender<Frame>>, earlier: Option<Seq<FrameView>>) -> Option<
    Seq<FrameView>,
> {
    match gone {
        Some(tx) => Some(pushed(tx)),
        None => earlier,
    }
}

/// Copy of a ban list.
fn clone_bans(bans: &Vec<PlayerBanType>) -> (r: Vec<PlayerBanType>)
    ensures
        r@ == bans@,
{
    let mut out: Vec<PlayerBanType> = Vec::with_capacity(bans.len());
    let mut i: usize = 0;
    while i < bans.len()
        invariant
            i <= bans.len(),
            out@ == bans@.take(i as int),
        decreases bans.len() - i,
    {
        out.push(bans[i]);
        i += 1;
    }
    out
}

/// The wire id of the slot with index `id`.
pub(crate) fn slot_id_to_player_id(id: u32) -> (r: u8)
    ensures
        r as int == slot_player_id_of(id as int),
{
    index_to_player_id(id as usize)
}

impl PlayerDispatchInfo {
    pub fn new(slot: &PlayerSlot) -> (info: Self)
        ensures
            info@ == PlayerView::fresh(*slot),
    {
        let info = PlayerDispatchInfo {
            pending_ack_packets: Vec::new(),
            ticks: 0,
            tx: None,
            retired: Ghost(None),
            handed: Ghost(Seq::empty()),
            ban_list: clone_bans(&slot.player.ban_list),
            slot_player_id: slot_id_to_player_id(slot.id),
        };
        assert(info@.pending_ack_packets =~= Seq::<PacketView>::empty());
        info
    }

    /// Gives the player a queue, in place of the one it had, if any.
    pub fn connect(&mut self, tx: Sender<Frame>) -> (replaced: Option<Sender<Frame>>)
        ensures
            final(self)@ == old(self)@.with_sink(Some(pushed(tx))),
            replaced is Some == old(self)@.connected(),
    {
        let replaced = self.tx.take();
        let ghost history = retired_after(replaced, self.retired@);
        self.retired = Ghost(history);
        self.tx = Some(tx);
        replaced
    }

    /// Takes the player's queue away.
    pub fn disconnect(&mut self) -> (removed: Option<Sender<Frame>>)
        ensures
            final(self)@ == old(self)@.disconnected(),
            match removed {
                Some(tx) => old(self)@.sink == Some(pushed(tx)),
                None => !old(self)@.connected(),
            },
    {
        let removed = self.tx.take();
        let ghost history = retired_after(removed, self.retired@);
        self.retired = Ghost(history);
        removed
    }

    pub fn connected(&self) -> (r: bool)
        ensures
            r == self@.connected(),
    {
        self.tx.is_some()
    }

    pub fn slot_player_id(&self) -> (id: u8)
        ensures
            id == self@.slot_player_id,
    {
        self.slot_player_id
    }

    /// Offers a game packet to the player's queue.
    pub fn send_w3gs(&mut self, pkt: Packet) -> (r: Result<(), PlayerSendError>)
        ensures
            send_outcome(old(self)@, final(self)@, Frame::W3gs(pkt), r),
    {
        self.send(w3gs_to_frame(pkt))
    }

    /// Offers a frame to the player's queue, without waiting. A refusal
    /// leaves the queue in place, with what it held.
    pub fn send(&mut self, frame: Frame) -> (r: Result<(), PlayerSendError>)
        ensures
            send_outcome(old(self)@, final(self)@, frame, r),
    {
        match self.tx.take() {
            Some(mut tx) => {
                self.handed = Ghost(self.handed@.push(frame@));
                let r = try_send_frame(&mut tx, frame);
                self.tx = Some(tx);
                r
            },
            None => Err(PlayerSendError::NotConnected(frame)),
        }
    }
}

/// How one attempt to queue `frame` relates a player's entry before and
/// after, and what it reports. A player without a queue is handed nothing
/// and gets the frame back. A player with a queue is handed the frame, and
/// the queue takes it or refuses it.
pub open spec fn send_outcome(
    before: PlayerView,
    after: PlayerView,
    frame: Frame,
    r: Result<(), PlayerSendError>,
) -> bool {
    match r {
        Ok(()) => before.connected() && after == before.received(frame@),
        Err(PlayerSendError::NotConnected(f)) => !before.connected() && after == before && f == frame,
        Err(PlayerSendError::Closed(f)) => before.connected() && after == before.refused(frame@) && f
            == frame,
        Err(PlayerSendError::ChannelFull) => before.connected() && after == before.refused(frame@),
    }
}

/// Names of the players whose queue refused a frame during one fan-out.
pub open spec fn names(errors: Seq<(i32, PlayerSendError)>, player_id: i32) -> bool {
    exists|e: int| 0 <= e < errors.len() && (#[trigger] errors[e]).0 == player_id
}

/// A player's entry after a broadcast that offered `frame` to them: the
/// frame was handed to the queue, and the queue took it, or it refused and
/// the player lost the queue.
pub open spec fn offered(before: PlayerView, after: PlayerView, frame: FrameView) -> bool {
    after == before.received(frame) || after == before.refused(frame).disconnected()
}

/// How a broadcast of `frame` to the players that `recipients` picks
/// relates the player table before and after: nobody joins or leaves the
/// table; every picked player with a queue is offered the frame; every other
/// entry stays as it was.
pub open spec fn broadcast_step(
    before: Map<i32, PlayerView>,
    after: Map<i32, PlayerView>,
    recipients: spec_fn(i32) -> bool,
    frame: FrameView,
) -> bool {
    &&& after.dom() == before.dom()
    &&& forall|id: i32| #[trigger]
        before.contains_key(id) ==> if recipients(id) && before[id].connected() {
            offered(before[id], after[id], frame)
        } else {
            after[id] == before[id]
        }
}

/// The frame that carries a host line to the player at slot id `player_id`.
pub open spec fn private_frame(player_id: u8, text: Seq<char>) -> FrameView {
    FrameView::W3gs(PacketView::ChatFromHost(ChatToHost::private_view(player_id, text)))
}

/// A player's entry after a host line went out to every connected player:
/// a player with a queue was handed a line addressed to that player alone,
/// and keeps the queue whether it took the line or not; a player without a
/// queue was handed nothing.
pub open spec fn lined(before: PlayerView, after: PlayerView, text: Seq<char>) -> bool {
    let frame = private_frame(before.slot_player_id, text);
    if before.connected() {
        after == before.received(frame) || after == before.refused(frame)
    } else {
        after == before
    }
}

/// How a host line to every connected player relates the player table
/// before and after: nobody joins or leaves the table, and every entry is
/// as `lined` says.
pub open spec fn message_step(
    before: Map<i32, PlayerView>,
    after: Map<i32, PlayerView>,
    text: Seq<char>,
) -> bool {
    &&& after.dom() == before.dom()
    &&& forall|id: i32| #[trigger] before.contains_key(id) ==> lined(before[id], after[id], text)
}

/// The player table of a game whose slots are `slots`: one entry per player
/// id, none of them connected. Where a player id occurs twice, the later
/// slot counts.
pub open spec fn initial_players(slots: Seq<PlayerSlot>) -> Map<i32, PlayerView>
    decreases slots.len(),
{
    if slots.len() == 0 {
        Map::empty()
    } else {
        initial_players(slots.drop_last()).insert(
            slots.last().player.player_id,
            PlayerView::fresh(slots.last()),
        )
    }
}

/// The frame that announces a tick.
pub open spec fn tick_frame(tick: Tick) -> FrameView {
    FrameView::W3gs(
        PacketView::IncomingAction(
            TimeSlotView {
                time_increment_ms: tick.time_increment_ms,
                actions: actions_view(tick.actions@),
            },
        ),
    )
}

/// The entries of a table, seen through their views.
spec fn players_of(map: IdMap<PlayerDispatchInfo>) -> Map<i32, PlayerView> {
    map.as_map().map_values(|p: PlayerDispatchInfo| p@)
}

/// Whatever takes the place of the entry at place `i`, the table changes at
/// that player's id alone.
proof fn lemma_entry_replaced(before: IdMap<PlayerDispatchInfo>, i: int)
    requires
        before.wf(),
        0 <= i < before.keys().len(),
    ensures
        forall|after: IdMap<PlayerDispatchInfo>|
            after.keys() == before.keys() && after.values() == before.values().update(
                i,
                after.values()[i],
            ) ==> after.wf() && #[trigger] players_of(after) == players_of(before).insert(
                before.keys()[i],
                after.values()[i]@,
            ),
{
    assert forall|after: IdMap<PlayerDispatchInfo>|
        after.keys() == before.keys() && after.values() == before.values().update(
            i,
            after.values()[i],
        ) implies after.wf() && #[trigger] players_of(after) == players_of(before).insert(
        before.keys()[i],
        after.values()[i]@,
    ) by {
        before.lemma_update_at(&after, i);
        assert(players_of(after) =~= players_of(before).insert(before.keys()[i], after.values()[i]@));
    }
}

/// A player's entry after the first half of a broadcast, in which frames
/// are offered and refusals are only noted.
spec fn first_pass(
    before: PlayerView,
    after: PlayerView,
    admitted: bool,
    frame: FrameView,
    failed: bool,
) -> bool {
    if admitted && before.connected() {
        if failed {
            after == before.refused(frame)
        } else {
            after == before.received(frame)
        }
    } else {
        after == before && !failed
    }
}

/// Two well-formed tables over the same ids hold them in the same order.
proof fn lemma_same_keys(a: IdMap<PlayerDispatchInfo>, b: IdMap<PlayerDispatchInfo>)
    requires
        a.wf(),
        b.wf(),
        players_of(a).dom() == players_of(b).dom(),
    ensures
        a.keys() == b.keys(),
{
    assert forall|k: i32| a.keys().contains(k) == b.keys().contains(k) by {
        assert(a.keys().contains(k) == players_of(a).dom().contains(k));
        assert(b.keys().contains(k) == players_of(b).dom().contains(k));
    }
    crate::idmap::lemma_keys_by_domain(a.keys(), b.keys());
}

proof fn lemma_names_push(errors: Seq<(i32, PlayerSendError)>, x: (i32, PlayerSendError), id: i32)
    ensures
        names(errors.push(x), id) == (names(errors, id) || x.0 == id),
{
    let longer = errors.push(x);
    if names(errors, id) {
        let e = choose|e: int| 0 <= e < errors.len() && (#[trigger] errors[e]).0 == id;
        assert(longer[e].0 == id);
    }
    if x.0 == id {
        assert(longer[errors.len() as int].0 == id);
    }
    if names(longer, id) {
        let e = choose|e: int| 0 <= e < longer.len() && (#[trigger] longer[e]).0 == id;
        if e < errors.len() {
            assert(errors[e].0 == id);
        }
    }
}

/// State of one game that the dispatcher's two workers share: the table of
/// players with their queues, and the number of ticks sent so far.
pub struct Shared {
    game_id: i32,
    sent_tick: u32,
    map: IdMap<PlayerDispatchInfo>,
}

impl Shared {
    pub closed spec fn wf(&self) -> bool {
        self.map.wf()
    }

    pub closed spec fn game_id(&self) -> i32 {
        self.game_id
    }

    /// Number of ticks that were broadcast so far.
    pub closed spec fn sent_tick(&self) -> u32 {
        self.sent_tick
    }

    /// The player table, by player id.
    pub closed spec fn players(&self) -> Map<i32, PlayerView> {
        players_of(self.map)
    }

    proof fn lemma_player_at(&self, i: int)
        requires
            self.wf(),
            0 <= i < self.map.keys().len(),
        ensures
            self.players().contains_key(self.map.keys()[i]),
            self.players()[self.map.keys()[i]] == self.map.values()[i]@,
    {
        self.map.lemma_value_at(i);
    }

    pub fn new(game_id: i32, slots: &[PlayerSlot]) -> (shared: Self)
        ensures
            shared.wf(),
            shared.game_id() == game_id,
            shared.sent_tick() == 0,
            shared.players() == initial_players(slots@),
    {
        let mut map: IdMap<PlayerDispatchInfo> = IdMap::new();
        let mut i: usize = 0;
        assert(slots@.take(0) =~= Seq::<PlayerSlot>::empty());
        assert(players_of(map) =~= Map::<i32, PlayerView>::empty());
        while i < slots.len()
            invariant
                i <= slots.len(),
                map.wf(),
                players_of(map) == initial_players(slots@.take(i as int)),
            decreases slots.len() - i,
        {
            let ghost before = map;
            let info = PlayerDispatchInfo::new(&slots[i]);
            map.insert(slots[i].player.player_id, info);
            proof {
                assert(slots@.take(i + 1).drop_last() =~= slots@.take(i as int));
                assert(players_of(map) =~= players_of(before).insert(
                    slots@[i as int].player.player_id,
                    info@,
                ));
            }
            i += 1;
        }
        assert(slots@.take(slots.len() as int) =~= slots@);
        Shared { game_id, sent_tick: 0, map }
    }

    pub fn sent_ticks(&self) -> (n: u32)
        ensures
            n == self.sent_tick(),
    {
        self.sent_tick
    }

    /// The routing entry of a player, for changing in place.
    pub fn get_player(&mut self, player_id: i32) -> (r: Result<&mut PlayerDispatchInfo, Error>)
        requires
            old(self).wf(),
        ensures
            match r {
                Ok(info) => {
                    &&& old(self).players().contains_key(player_id)
                    &&& info@ == old(self).players()[player_id]
                    &&& final(self).wf()
                    &&& final(self).game_id() == old(self).game_id()
                    &&& final(self).sent_tick() == old(self).sent_tick()
                    &&& final(self).players() == old(self).players().insert(player_id, final(info)@)
                },
                Err(e) => {
                    &&& e == Error::PlayerNotFoundInGame
                    &&& !old(self).players().contains_key(player_id)
                    &&& *final(self) == *old(self)
                },
            },
    {
        match self.map.position(player_id) {
            Some(i) => {
                proof {
                    self.lemma_player_at(i as int);
                }
                proof {
                    lemma_entry_replaced(self.map, i as int);
                }
                Ok(self.map.value_mut(i))
            },
            None => Err(Error::PlayerNotFoundInGame),
        }
    }

    /// Broadcasts one tick to every player and counts it.
    pub fn dispatch_action_tick(&mut self, tick: Tick) -> (r: Result<(), Error>)
        requires
            old(self).wf(),
            old(self).sent_tick() < u32::MAX,
        ensures
            r is Ok,
            final(self).wf(),
            final(self).game_id() == old(self).game_id(),
            final(self).sent_tick() == old(self).sent_tick() + 1,
            broadcast_step(
                old(self).players(),
                final(self).players(),
                |id: i32| true,
                tick_frame(tick),
            ),
    {
        let action_packet = Packet::IncomingAction(
            TimeSlot { time_increment_ms: tick.time_increment_ms, actions: tick.actions },
        );
        let target = Everyone;
        let r = self.broadcast(action_packet, target);
        self.sent_tick = self.sent_tick + 1;
        proof {
            let picks = |id: i32| target.admits(id);
            let all = |id: i32| true;
            assert(picks =~= all);
        }
        r
    }

    /// Offers `packet` to the queue of every player that `target` picks, in
    /// ascending order of player id and without waiting. A player whose queue
    /// is closed or full loses the queue. No failure is reported.
    pub fn broadcast<T: BroadcastTarget>(&mut self, packet: Packet, target: T) -> (r: Result<
        (),
        Error,
    >)
        requires
            old(self).wf(),
        ensures
            r is Ok,
            final(self).wf(),
            final(self).game_id() == old(self).game_id(),
            final(self).sent_tick() == old(self).sent_tick(),
            broadcast_step(
                old(self).players(),
                final(self).players(),
                |id: i32| target.admits(id),
                Frame::W3gs(packet)@,
            ),
    {
        let ghost before = self.map;
        let ghost keys = self.map.keys();
        let frame = w3gs_to_frame(packet);
        let ghost fv = frame@;
        let mut errors: Vec<(i32, PlayerSendError)> = Vec::new();
        let n = self.map.len();
        let mut i: usize = 0;
        while i < n
            invariant
                i <= n,
                n == keys.len(),
                before.wf(),
                before.keys() == keys,
                self.map.wf(),
                self.map.keys() == keys,
                self.game_id == old(self).game_id,
                self.sent_tick == old(self).sent_tick,
                frame@ == fv,
                forall|id: i32| #[trigger]
                    keys.contains(id) ==> if crate::idmap::place_of(keys, id) < i {
                        first_pass(
                            players_of(before)[id],
                            players_of(self.map)[id],
                            target.admits(id),
                            fv,
                            names(errors@, id),
                        )
                    } else {
                        players_of(self.map)[id] == players_of(before)[id]
                    },
                forall|e: int|
                    0 <= e < errors.len() ==> {
                        &&& keys.contains((#[trigger] errors@[e]).0)
                        &&& crate::idmap::place_of(keys, errors@[e].0) < i
                        &&& !(errors@[e].1 is NotConnected)
                    },
            decreases n - i,
        {
            let key = self.map.key_at(i);
            let ghost snapshot = self.map;
            let ghost noted = errors@;
            proof {
                crate::idmap::lemma_place_of(keys, i as int);
                snapshot.lemma_value_at(i as int);
                lemma_entry_replaced(snapshot, i as int);
                assert(!names(noted, key));
            }
            if target.contains(key) {
                let info = self.map.value_mut(i);
                if info.connected() {
                    match info.send(frame.clone()) {
                        Ok(()) => {},
                        Err(err) => {
                            proof {
                                assert forall|id: i32| names(noted.push((key, err)), id) == (names(
                                    noted,
                                    id,
                                ) || key == id) by {
                                    lemma_names_push(noted, (key, err), id);
                                }
                            }
                            errors.push((key, err));
                        },
                    }
                }
            }
            proof {
                assert forall|id: i32| #[trigger] keys.contains(id) implies if crate::idmap::place_of(
                    keys,
                    id,
                ) < i + 1 {
                    first_pass(
                        players_of(before)[id],
                        players_of(self.map)[id],
                        target.admits(id),
                        fv,
                        names(errors@, id),
                    )
                } else {
                    players_of(self.map)[id] == players_of(before)[id]
                } by {
                    let p = crate::idmap::place_of(keys, id);
                    assert(0 <= p < keys.len() && keys[p] == id);
                    if id != key {
                        assert(p != i);
                        assert(players_of(self.map)[id] == players_of(snapshot)[id]);
                    }
                }
            }
            i += 1;
        }
        let ghost mid = self.map;
        let mut k: usize = 0;
        assert(errors@.take(0) =~= Seq::<(i32, PlayerSendError)>::empty());
        while k < errors.len()
            invariant
                k <= errors.len(),
                n == keys.len(),
                mid.wf(),
                mid.keys() == keys,
                self.map.wf(),
                self.map.keys() == keys,
                self.game_id == old(self).game_id,
                self.sent_tick == old(self).sent_tick,
                forall|id: i32| #[trigger]
                    keys.contains(id) ==> players_of(self.map)[id] == if names(errors@.take(k as int), id) {
                        players_of(mid)[id].disconnected()
                    } else {
                        players_of(mid)[id]
                    },
                forall|e: int|
                    0 <= e < errors.len() ==> {
                        &&& keys.contains((#[trigger] errors@[e]).0)
                        &&& !(errors@[e].1 is NotConnected)
                    },
            decreases errors.len() - k,
        {
            let player_id = errors[k].0;
            let ghost snapshot = *self;
            proof {
                assert(errors@.take(k + 1) =~= errors@.take(k as int).push(errors@[k as int]));
                assert forall|id: i32| names(errors@.take(k + 1), id) == (names(errors@.take(k as int), id)
                    || player_id == id) by {
                    lemma_names_push(errors@.take(k as int), errors@[k as int], id);
                }
                assert(keys.contains(errors@[k as int].0));
                assert(snapshot.players().dom() =~= Set::new(|id: i32| keys.contains(id)));
            }
            match self.get_player(player_id) {
                Ok(info) => {
                    info.disconnect();
                },
                Err(e) => {
                    return Err(e);
                },
            }
            proof {
                assert(self.map.keys() =~= keys) by {
                    assert(self.players().dom() =~= snapshot.players().dom());
                    lemma_same_keys(self.map, snapshot.map);
                }
            }
            k += 1;
        }
        proof {
            assert(errors@.take(errors.len() as int) =~= errors@);
            assert(self.players().dom() =~= old(self).players().dom());
            assert forall|id: i32| #[trigger] old(self).players().contains_key(id) implies if target.admits(id)
                && old(self).players()[id].connected() {
                offered(old(self).players()[id], self.players()[id], fv)
            } else {
                self.players()[id] == old(self).players()[id]
            } by {
                assert(keys.contains(id));
            }
        }
        Ok(())
    }

    /// Hands a line from the host to the queue of every connected player,
    /// each copy addressed to its recipient alone. A queue that refuses the
    /// line is left in place.
    pub fn broadcast_message(&mut self, message: &str)
        requires
            old(self).wf(),
        ensures
            final(self).wf(),
            final(self).game_id() == old(self).game_id(),
            final(self).sent_tick() == old(self).sent_tick(),
            message_step(old(self).players(), final(self).players(), message@),
    {
        let ghost before = self.map;
        let ghost keys = self.map.keys();
        let n = self.map.len();
        let mut i: usize = 0;
        while i < n
            invariant
                i <= n,
                n == keys.len(),
                before.wf(),
                before.keys() == keys,
                self.map.wf(),
                self.map.keys() == keys,
                self.game_id == old(self).game_id,
                self.sent_tick == old(self).sent_tick,
                forall|id: i32| #[trigger]
                    keys.contains(id) ==> if crate::idmap::place_of(keys, id) < i {
                        lined(players_of(before)[id], players_of(self.map)[id], message@)
                    } else {
                        players_of(self.map)[id] == players_of(before)[id]
                    },
            decreases n - i,
        {
            let ghost key = keys[i as int];
            let ghost snapshot = self.map;
            proof {
                crate::idmap::lemma_place_of(keys, i as int);
                snapshot.lemma_value_at(i as int);
                lemma_entry_replaced(snapshot, i as int);
            }
            let info = self.map.value_mut(i);
            if info.connected() {
                let payload = ChatToHost::private_to_self(info.slot_player_id(), message);
                let frame = w3gs_to_frame(Packet::ChatFromHost(payload));
                let _ = info.send(frame);
            }
            proof {
                assert forall|id: i32| #[trigger] keys.contains(id) implies if crate::idmap::place_of(
                    keys,
                    id,
                ) < i + 1 {
                    lined(players_of(before)[id], players_of(self.map)[id], message@)
                } else {
                    players_of(self.map)[id] == players_of(before)[id]
                } by {
                    let p = crate::idmap::place_of(keys, id);
                    assert(0 <= p < keys.len() && keys[p] == id);
                    if id != key {
                        assert(p != i);
                        assert(players_of(self.map)[id] == players_of(snapshot)[id]);
                    }
                }
            }
            i += 1;
        }
        proof {
            assert(self.players().dom() =~= old(self).players().dom());
            assert forall|id: i32| #[trigger] old(self).players().contains_key(id) implies lined(
                old(self).players()[id],
                self.players()[id],
                message@,
            ) by {
                assert(keys.contains(id));
            }
        }
    }
}

} // verus!
