//! The node-side dispatcher of one game: what it does with every message
//! from the connection layer, how it releases and feeds the tick worker, and
//! what holds of it whatever happens.

use vstd::prelude::*;
use tokio::sync::mpsc::Sender;
use crate::broadcast::{AllowList, BroadcastTarget, DenyList, Everyone};
use crate::clock::{ActionTickStream, GAME_DEFAULT_STEP_MS};
use crate::idmap::IdMap;
use crate::players::{
    broadcast_step, initial_players, message_step, offered, slot_id_to_player_id, Error, PlayerSlot,
    PlayerView, Shared,
};
use crate::sink::{fire, pushed};
use crate::status::{GameEvent, PlayerBanType, SlotClientStatus, SlotClientStatusUpdateSource};
use crate::w3gs::{
    ChatToHost, ChatView, Frame, FrameView, LeaveReason, Packet, PacketView, PlayerAction, PlayerActionView,
    TimeSlotView,
};

verus! {

/// What reaches the dispatcher from the connection layer.
#[derive(Debug)]
pub enum Message {
    /// A frame that a player sent.
    Incoming { player_id: i32, slot_player_id: u8, frame: Frame },
    /// A player has a new connection; `tx` is its outbound queue.
    PlayerConnect { player_id: i32, slot_player_id: u8, tx: Sender<Frame> },
    /// A player's connection is gone.
    PlayerDisconnect { player_id: i32, slot_player_id: u8 },
}

/// What is left to do once the dispatcher has handled a message. Every
/// variant but `Continue` names one send on a channel that only the caller
/// can wait for; where that send fails, the message has failed as
/// `Error::Cancelled`.
#[derive(Debug, PartialEq, Eq)]
pub enum DispatchResult {
    /// Nothing.
    Continue,
    /// Queue the action for the tick worker.
    Action(PlayerAction),
    /// Send the event to the owner of the game.
    Event(GameEvent),
    /// Send the event to the owner of the game, and once it is on its way
    /// finish the message with `State::player_disconnected`.
    Disconnecting { event: GameEvent, player_id: i32, slot_player_id: u8 },
}

/// The frame that confirms a player's request to leave.
pub open spec fn leave_ack_frame() -> FrameView {
    FrameView::W3gs(PacketView::LeaveAck)
}

/// The frame that tells the others that a player is gone.
pub open spec fn player_left_frame(slot_player_id: u8, reason: LeaveReason) -> FrameView {
    FrameView::W3gs(PacketView::PlayerLeft { player_id: slot_player_id, reason })
}

/// How a request to leave changes the player table: the leaver is handed
/// the confirmation and loses the queue whether or not it took it; every
/// other connected player is offered the notice; the leaver is not.
pub open spec fn leave_step(
    before: Map<i32, PlayerView>,
    after: Map<i32, PlayerView>,
    player_id: i32,
    slot_player_id: u8,
    reason: LeaveReason,
) -> bool {
    &&& before.contains_key(player_id)
    &&& after.dom() == before.dom()
    &&& if before[player_id].connected() {
        ||| after[player_id] == before[player_id].received(leave_ack_frame()).disconnected()
        ||| after[player_id] == before[player_id].refused(leave_ack_frame()).disconnected()
    } else {
        after[player_id] == before[player_id]
    }
    &&& forall|id: i32| #[trigger]
        before.contains_key(id) && id != player_id ==> if before[id].connected() {
            offered(before[id], after[id], player_left_frame(slot_player_id, reason))
        } else {
            after[id] == before[id]
        }
}

/// How the loss of a player's connection changes the player table. A
/// player who had a queue loses it, and every other connected player is
/// told that the player left by disconnecting. Where the player had no
/// queue, nothing changes.
pub open spec fn disconnect_step(
    before: Map<i32, PlayerView>,
    after: Map<i32, PlayerView>,
    player_id: i32,
    slot_player_id: u8,
) -> bool {
    &&& before.contains_key(player_id)
    &&& if before[player_id].connected() {
        &&& after.dom() == before.dom()
        &&& after[player_id] == before[player_id].disconnected()
        &&& forall|id: i32| #[trigger]
            before.contains_key(id) && id != player_id ==> if before[id].connected() {
                offered(
                    before[id],
                    after[id],
                    player_left_frame(slot_player_id, LeaveReason::LeaveDisconnect),
                )
            } else {
                after[id] == before[id]
            }
    } else {
        after == before
    }
}

/// The players that a chat line from `sender` goes to: its target slot ids
/// turned into player ids, in order, without the ids that no slot has and
/// without the sender.
pub open spec fn chat_recipients(slot_to_player: Map<u8, i32>, to_players: Seq<u8>, sender: i32) -> Seq<
    i32,
>
    decreases to_players.len(),
{
    if to_players.len() == 0 {
        Seq::empty()
    } else {
        let rest = chat_recipients(slot_to_player, to_players.drop_last(), sender);
        let slot = to_players.last();
        if slot_to_player.contains_key(slot) && slot_to_player[slot] != sender {
            rest.push(slot_to_player[slot])
        } else {
            rest
        }
    }
}

/// The acknowledged-tick counters of a game whose slots are `slots`: zero
/// for every player.
pub open spec fn initial_acks(slots: Seq<PlayerSlot>) -> Map<i32, usize>
    decreases slots.len(),
{
    if slots.len() == 0 {
        Map::empty()
    } else {
        initial_acks(slots.drop_last()).insert(slots.last().player.player_id, 0)
    }
}

/// The table from wire ids to player ids of a game whose slots are
/// `slots`. Where two slots share an index, the later one counts.
pub open spec fn initial_slot_to_player(slots: Seq<PlayerSlot>) -> Map<u8, i32>
    decreases slots.len(),
{
    if slots.len() == 0 {
        Map::empty()
    } else {
        initial_slot_to_player(slots.drop_last()).insert(
            slots.last().slot_player_id(),
            slots.last().player.player_id,
        )
    }
}

/// The players of `slots` who are barred from in-game chat, in slot order.
pub open spec fn chat_banned_ids(slots: Seq<PlayerSlot>) -> Seq<i32>
    decreases slots.len(),
{
    if slots.len() == 0 {
        Seq::empty()
    } else {
        let rest = chat_banned_ids(slots.drop_last());
        if slots.last().chat_banned() {
            rest.push(slots.last().player.player_id)
        } else {
            rest
        }
    }
}

/// The counters after one more acknowledgement from `player_id`.
pub open spec fn acked(acks: Map<i32, usize>, player_id: i32) -> Map<i32, usize> {
    if acks.contains_key(player_id) {
        acks.insert(player_id, (acks[player_id] + 1) as usize)
    } else {
        acks
    }
}

/// Whether a ban list bars from in-game chat.
fn bans_chat(bans: &Vec<PlayerBanType>) -> (r: bool)
    ensures
        r == bans@.contains(PlayerBanType::Chat),
{
    let mut i: usize = 0;
    while i < bans.len()
        invariant
            i <= bans.len(),
            forall|j: int| 0 <= j < i ==> bans@[j] != PlayerBanType::Chat,
        decreases bans.len() - i,
    {
        if bans[i] == PlayerBanType::Chat {
            return true;
        }
        i += 1;
    }
    false
}

/// The dispatcher's own book-keeping for one game.
pub struct State {
    game_id: i32,
    player_ack_map: IdMap<usize>,
    game_player_id_lookup: IdMap<i32>,
    chat_banned_player_ids: Vec<i32>,
}

/// A table keyed by wire ids, read off a table keyed by integers.
spec fn by_slot(lookup: IdMap<i32>) -> Map<u8, i32> {
    Map::new(|k: u8| lookup.contains_key(k as i32), |k: u8| lookup.value_of(k as i32))
}

impl State {
    pub closed spec fn wf(&self) -> bool {
        &&& self.player_ack_map.wf()
        &&& self.game_player_id_lookup.wf()
        &&& forall|k: i32| #[trigger] self.game_player_id_lookup.contains_key(k) ==> 0 <= k < 256
    }

    pub closed spec fn game_id(&self) -> i32 {
        self.game_id
    }

    /// Ticks acknowledged so far, by player id.
    pub closed spec fn acks(&self) -> Map<i32, usize> {
        self.player_ack_map.as_map()
    }

    /// Player id by 1-based slot id.
    pub closed spec fn slot_to_player(&self) -> Map<u8, i32> {
        by_slot(self.game_player_id_lookup)
    }

    /// The players who are barred from in-game chat.
    pub closed spec fn chat_banned(&self) -> Seq<i32> {
        self.chat_banned_player_ids@
    }

    /// Whether one more acknowledgement from `player_id` can be counted.
    pub open spec fn can_ack(&self, player_id: i32) -> bool {
        self.acks().contains_key(player_id) ==> self.acks()[player_id] < usize::MAX
    }

    /// No player has acknowledged more ticks than were sent.
    pub open spec fn acks_within(&self, sent_tick: u32) -> bool {
        forall|id: i32| #[trigger] self.acks().contains_key(id) ==> self.acks()[id] <= sent_tick
    }

    pub fn new(game_id: i32, slots: &[PlayerSlot]) -> (state: Self)
        ensures
            state.wf(),
            state.game_id() == game_id,
            state.acks() == initial_acks(slots@),
            state.slot_to_player() == initial_slot_to_player(slots@),
            state.chat_banned() == chat_banned_ids(slots@),
    {
        let mut acks: IdMap<usize> = IdMap::new();
        let mut lookup: IdMap<i32> = IdMap::new();
        let mut banned: Vec<i32> = Vec::new();
        let mut i: usize = 0;
        assert(slots@.take(0) =~= Seq::<PlayerSlot>::empty());
        assert(by_slot(lookup) =~= Map::<u8, i32>::empty());
        while i < slots.len()
            invariant
                i <= slots.len(),
                acks.wf(),
                lookup.wf(),
                forall|k: i32| #[trigger] lookup.contains_key(k) ==> 0 <= k < 256,
                acks.as_map() == initial_acks(slots@.take(i as int)),
                by_slot(lookup) == initial_slot_to_player(slots@.take(i as int)),
                banned@ == chat_banned_ids(slots@.take(i as int)),
            decreases slots.len() - i,
        {
            let slot = &slots[i];
            let ghost lookup_before = lookup;
            acks.insert(slot.player.player_id, 0);
            let wire_id = slot_id_to_player_id(slot.id);
            lookup.insert(wire_id as i32, slot.player.player_id);
            if bans_chat(&slot.player.ban_list) {
                banned.push(slot.player.player_id);
            }
            proof {
                assert(slots@.take(i + 1).drop_last() =~= slots@.take(i as int));
                assert forall|k: i32| #[trigger] lookup.contains_key(k) implies 0 <= k < 256 by {
                    assert(lookup.as_map().contains_key(k));
                    if k != wire_id as i32 {
                        assert(lookup_before.as_map().contains_key(k));
                        assert(lookup_before.contains_key(k));
                    }
                }
                assert(by_slot(lookup) =~= by_slot(lookup_before).insert(wire_id, slot.player.player_id)) by {
                    assert forall|k: u8| #[trigger] by_slot(lookup).contains_key(k) == by_slot(
                        lookup_before,
                    ).insert(wire_id, slot.player.player_id).contains_key(k) by {
                        assert(lookup.contains_key(k as i32) == lookup.as_map().contains_key(k as i32));
                        assert(lookup_before.contains_key(k as i32) == lookup_before.as_map().contains_key(
                            k as i32,
                        ));
                    }
                    assert forall|k: u8| #[trigger] by_slot(lookup).contains_key(k) implies by_slot(lookup)[k]
                        == by_slot(lookup_before).insert(wire_id, slot.player.player_id)[k] by {
                        assert(lookup.value_of(k as i32) == lookup.as_map()[k as i32]);
                        assert(lookup.as_map().contains_key(k as i32));
                        if k != wire_id {
                            assert(lookup_before.as_map().contains_key(k as i32));
                            assert(lookup_before.value_of(k as i32) == lookup_before.as_map()[k as i32]);
                        }
                    }
                }
            }
            i += 1;
        }
        assert(slots@.take(slots.len() as int) =~= slots@);
        State {
            game_id,
            player_ack_map: acks,
            game_player_id_lookup: lookup,
            chat_banned_player_ids: banned,
        }
    }

    /// Ticks that `player_id` has acknowledged, if the player is in the game.
    pub fn acked_ticks(&self, player_id: i32) -> (n: Option<usize>)
        requires
            self.wf(),
        ensures
            match n {
                Some(n) => self.acks().contains_key(player_id) && self.acks()[player_id] == n,
                None => !self.acks().contains_key(player_id),
            },
    {
        match self.player_ack_map.get(player_id) {
            Some(n) => Some(*n),
            None => None,
        }
    }

    /// Counts one more acknowledged tick for `player_id`. A player who is not
    /// in the game is ignored.
    pub fn ack_tick(&mut self, player_id: i32)
        requires
            old(self).wf(),
            old(self).can_ack(player_id),
        ensures
            final(self).wf(),
            final(self).acks() == acked(old(self).acks(), player_id),
            final(self).game_id() == old(self).game_id(),
            final(self).slot_to_player() == old(self).slot_to_player(),
            final(self).chat_banned() == old(self).chat_banned(),
    {
        match self.player_ack_map.position(player_id) {
            Some(i) => {
                let ghost before = self.player_ack_map;
                proof {
                    before.lemma_value_at(i as int);
                }
                let tick = self.player_ack_map.value_mut(i);
                *tick = *tick + 1;
                proof {
                    before.lemma_update_at(&self.player_ack_map, i as int);
                }
            },
            None => {},
        }
    }

    /// Whether `player_id` is barred from in-game chat.
    pub fn is_chat_banned(&self, player_id: i32) -> (r: bool)
        ensures
            r == self.chat_banned().contains(player_id),
    {
        crate::broadcast::list_contains(self.chat_banned_player_ids.as_slice(), player_id)
    }
}

/// The event that reports a change of a player's status.
pub open spec fn status_event(
    player_id: i32,
    status: SlotClientStatus,
    source: SlotClientStatusUpdateSource,
) -> GameEvent {
    GameEvent::PlayerStatusChange(player_id, status, source)
}

/// How a chat line from `player_id` changes the player table. A line typed
/// in a running game by a player who is barred from chat changes nothing.
/// Any other line goes out again as a line from the host, to the players it
/// names and never back to its sender.
pub open spec fn chat_step(
    chat_banned: Seq<i32>,
    slot_to_player: Map<u8, i32>,
    before: Map<i32, PlayerView>,
    after: Map<i32, PlayerView>,
    player_id: i32,
    chat: ChatView,
) -> bool {
    if chat_banned.contains(player_id) && chat.message.in_game() {
        after == before
    } else {
        broadcast_step(
            before,
            after,
            |id: i32| chat_recipients(slot_to_player, chat.to_players, player_id).contains(id),
            FrameView::W3gs(PacketView::ChatFromHost(chat)),
        )
    }
}

/// What the dispatcher does with a game packet from a player, other than
/// queueing actions: the table of players and the counters after it, and
/// what is left to do.
pub open spec fn w3gs_step(
    state: State,
    players: Map<i32, PlayerView>,
    player_id: i32,
    slot_player_id: u8,
    packet: PacketView,
    state_after: State,
    players_after: Map<i32, PlayerView>,
    r: Result<DispatchResult, Error>,
) -> bool {
    match packet {
        PacketView::LeaveReq(reason) => {
            &&& state_after == state
            &&& if players.contains_key(player_id) {
                &&& r == Ok::<DispatchResult, Error>(
                    DispatchResult::Event(
                        status_event(player_id, SlotClientStatus::Left, SlotClientStatusUpdateSource::Node),
                    ),
                )
                &&& leave_step(players, players_after, player_id, slot_player_id, reason)
            } else {
                &&& r == Err::<DispatchResult, Error>(Error::PlayerNotFoundInGame)
                &&& players_after == players
            }
        },
        PacketView::ChatToHost(chat) => {
            &&& state_after == state
            &&& r == Ok::<DispatchResult, Error>(DispatchResult::Continue)
            &&& chat_step(
                state.chat_banned(),
                state.slot_to_player(),
                players,
                players_after,
                player_id,
                chat,
            )
        },
        PacketView::OutgoingKeepAlive { .. } => {
            &&& r == Ok::<DispatchResult, Error>(DispatchResult::Continue)
            &&& players_after == players
            &&& state_after.acks() == acked(state.acks(), player_id)
            &&& state_after.game_id() == state.game_id()
            &&& state_after.slot_to_player() == state.slot_to_player()
            &&& state_after.chat_banned() == state.chat_banned()
        },
        _ => {
            &&& r == Ok::<DispatchResult, Error>(DispatchResult::Continue)
            &&& players_after == players
            &&& state_after == state
        },
    }
}

/// What the dispatcher does with a control frame from a player: a report of
/// the player's own status becomes an event; any other frame is passed over.
pub open spec fn flo_step(player_id: i32, frame: FrameView) -> DispatchResult {
    match frame {
        FrameView::SlotClientStatusRequest(status) => DispatchResult::Event(
            status_event(player_id, status, SlotClientStatusUpdateSource::Client),
        ),
        _ => DispatchResult::Continue,
    }
}

impl State {
    /// The players that a chat line from `player_id` to the slot ids
    /// `to_players` goes to.
    fn chat_targets(&self, to_players: &Vec<u8>, player_id: i32) -> (ids: Vec<i32>)
        requires
            self.wf(),
        ensures
            ids@ == chat_recipients(self.slot_to_player(), to_players@, player_id),
    {
        let mut ids: Vec<i32> = Vec::new();
        let mut i: usize = 0;
        assert(to_players@.take(0) =~= Seq::<u8>::empty());
        while i < to_players.len()
            invariant
                i <= to_players.len(),
                self.wf(),
                ids@ == chat_recipients(self.slot_to_player(), to_players@.take(i as int), player_id),
            decreases to_players.len() - i,
        {
            let slot = to_players[i];
            proof {
                assert(to_players@.take(i + 1).drop_last() =~= to_players@.take(i as int));
                assert(self.game_player_id_lookup.as_map().contains_key(slot as i32)
                    == self.slot_to_player().contains_key(slot));
                assert(self.slot_to_player().contains_key(slot) ==> self.slot_to_player()[slot]
                    == self.game_player_id_lookup.as_map()[slot as i32]);
            }
            match self.game_player_id_lookup.get(slot as i32) {
                Some(id) => {
                    if *id != player_id {
                        ids.push(*id);
                    }
                },
                None => {},
            }
            i += 1;
        }
        assert(to_players@.take(to_players.len() as int) =~= to_players@);
        ids
    }

    /// Routes a chat line that `player_id` sent to the host.
    pub fn dispatch_chat(&mut self, shared: &mut Shared, player_id: i32, chat: ChatToHost) -> (r: Result<
        (),
        Error,
    >)
        requires
            old(self).wf(),
            old(shared).wf(),
        ensures
            r is Ok,
            *final(self) == *old(self),
            final(shared).wf(),
            final(shared).game_id() == old(shared).game_id(),
            final(shared).sent_tick() == old(shared).sent_tick(),
            chat_step(
                old(self).chat_banned(),
                old(self).slot_to_player(),
                old(shared).players(),
                final(shared).players(),
                player_id,
                chat@,
            ),
    {
        if self.is_chat_banned(player_id) && chat.message.is_in_game_chat() {
            return Ok(());
        }
        let recipients = self.chat_targets(&chat.to_players, player_id);
        let target = AllowList(recipients.as_slice());
        proof {
            let picks = |id: i32| target.admits(id);
            let named = |id: i32|
                chat_recipients(self.slot_to_player(), chat@.to_players, player_id).contains(id);
            assert(picks =~= named);
        }
        shared.broadcast(Packet::ChatFromHost(chat), target)
    }

    /// Handles a control frame that `player_id` sent.
    pub fn dispatch_incoming_flo(&mut self, player_id: i32, frame: Frame) -> (r: Result<
        DispatchResult,
        Error,
    >)
        ensures
            r == Ok::<DispatchResult, Error>(flo_step(player_id, frame@)),
            *final(self) == *old(self),
    {
        match frame {
            Frame::SlotClientStatusRequest(status) => Ok(
                DispatchResult::Event(
                    GameEvent::PlayerStatusChange(player_id, status, SlotClientStatusUpdateSource::Client),
                ),
            ),
            _ => Ok(DispatchResult::Continue),
        }
    }

    /// Handles a game packet that `player_id` sent, other than an action.
    pub fn dispatch_incoming_w3gs(
        &mut self,
        shared: &mut Shared,
        player_id: i32,
        slot_player_id: u8,
        packet: Packet,
    ) -> (r: Result<DispatchResult, Error>)
        requires
            old(self).wf(),
            old(shared).wf(),
            packet is OutgoingKeepAlive ==> old(self).can_ack(player_id),
        ensures
            final(self).wf(),
            final(shared).wf(),
            final(shared).game_id() == old(shared).game_id(),
            final(shared).sent_tick() == old(shared).sent_tick(),
            w3gs_step(
                *old(self),
                old(shared).players(),
                player_id,
                slot_player_id,
                packet@,
                *final(self),
                final(shared).players(),
                r,
            ),
    {
        match packet {
            Packet::LeaveReq(reason) => {
                let pkt = Packet::PlayerLeft { player_id: slot_player_id, reason };
                let ghost before = shared.players();
                match shared.get_player(player_id) {
                    Ok(player) => {
                        let _ = player.send_w3gs(Packet::LeaveAck);
                        player.disconnect();
                    },
                    Err(e) => {
                        return Err(e);
                    },
                }
                let mut deny: Vec<i32> = Vec::new();
                deny.push(player_id);
                let target = DenyList(deny.as_slice());
                let ghost mid = shared.players();
                let sent = shared.broadcast(pkt, target);
                proof {
                    assert(target.0@ =~= seq![player_id]);
                    assert(target.0@[0] == player_id);
                    assert(!target.admits(player_id));
                    assert forall|id: i32| #[trigger] before.contains_key(id) && id != player_id implies if before[id].connected() {
                        offered(
                            before[id],
                            shared.players()[id],
                            player_left_frame(slot_player_id, reason),
                        )
                    } else {
                        shared.players()[id] == before[id]
                    } by {
                        assert(mid.contains_key(id));
                        assert(mid[id] == before[id]);
                        assert(!target.0@.contains(id));
                        assert(target.admits(id));
                    }
                    assert(mid.contains_key(player_id));
                    assert(shared.players().dom() =~= before.dom());
                }
                match sent {
                    Ok(()) => Ok(
                        DispatchResult::Event(
                            GameEvent::PlayerStatusChange(
                                player_id,
                                SlotClientStatus::Left,
                                SlotClientStatusUpdateSource::Node,
                            ),
                        ),
                    ),
                    Err(e) => Err(e),
                }
            },
            Packet::ChatToHost(chat) => {
                match self.dispatch_chat(shared, player_id, chat) {
                    Ok(()) => Ok(DispatchResult::Continue),
                    Err(e) => Err(e),
                }
            },
            Packet::OutgoingKeepAlive { .. } => {
                self.ack_tick(player_id);
                Ok(DispatchResult::Continue)
            },
            _ => Ok(DispatchResult::Continue),
        }
    }

    /// Handles one message from the connection layer, as far as that can be
    /// done without waiting, and says what is left to do.
    ///
    /// An action that a player sent is handed back for the tick worker, under
    /// the player's slot id. A new connection replaces the player's queue. A
    /// lost connection is only announced here: the table changes in
    /// `player_disconnected`, after its event is on its way.
    pub fn dispatch(&mut self, shared: &mut Shared, msg: Message) -> (r: Result<DispatchResult, Error>)
        requires
            old(self).wf(),
            old(shared).wf(),
            msg matches Message::Incoming { player_id, frame, .. } ==> (frame matches Frame::W3gs(
                Packet::OutgoingKeepAlive { .. },
            ) ==> old(self).can_ack(player_id)),
        ensures
            final(self).wf(),
            final(shared).wf(),
            final(shared).game_id() == old(shared).game_id(),
            final(shared).sent_tick() == old(shared).sent_tick(),
            dispatch_step(
                *old(self),
                old(shared).players(),
                msg,
                *final(self),
                final(shared).players(),
                r,
            ),
    {
        match msg {
            Message::Incoming { player_id, slot_player_id, frame } => match frame {
                Frame::W3gs(pkt) => {
                    match pkt {
                        Packet::OutgoingAction { data } => Ok(
                            DispatchResult::Action(PlayerAction { player_id: slot_player_id, data }),
                        ),
                        other => self.dispatch_incoming_w3gs(shared, player_id, slot_player_id, other),
                    }
                },
                other => self.dispatch_incoming_flo(player_id, other),
            },
            Message::PlayerConnect { player_id, tx, .. } => {
                match shared.get_player(player_id) {
                    Ok(player) => {
                        player.connect(tx);
                    },
                    Err(e) => {
                        return Err(e);
                    },
                }
                Ok(
                    DispatchResult::Event(
                        GameEvent::PlayerStatusChange(
                            player_id,
                            SlotClientStatus::Connected,
                            SlotClientStatusUpdateSource::Node,
                        ),
                    ),
                )
            },
            Message::PlayerDisconnect { player_id, slot_player_id } => Ok(
                DispatchResult::Disconnecting {
                    event: GameEvent::PlayerStatusChange(
                        player_id,
                        SlotClientStatus::Disconnected,
                        SlotClientStatusUpdateSource::Node,
                    ),
                    player_id,
                    slot_player_id,
                },
            ),
        }
    }

    /// Finishes a lost connection once its event is on its way: the player
    /// loses the queue, and if there was one, the others are told.
    pub fn player_disconnected(&mut self, shared: &mut Shared, player_id: i32, slot_player_id: u8) -> (r:
        Result<DispatchResult, Error>)
        requires
            old(self).wf(),
            old(shared).wf(),
        ensures
            *final(self) == *old(self),
            final(shared).wf(),
            final(shared).game_id() == old(shared).game_id(),
            final(shared).sent_tick() == old(shared).sent_tick(),
            if old(shared).players().contains_key(player_id) {
                &&& r == Ok::<DispatchResult, Error>(DispatchResult::Continue)
                &&& disconnect_step(
                    old(shared).players(),
                    final(shared).players(),
                    player_id,
                    slot_player_id,
                )
            } else {
                &&& r == Err::<DispatchResult, Error>(Error::PlayerNotFoundInGame)
                &&& final(shared).players() == old(shared).players()
            },
    {
        let ghost before = shared.players();
        let had_queue = match shared.get_player(player_id) {
            Ok(player) => player.disconnect().is_some(),
            Err(e) => {
                return Err(e);
            },
        };
        if had_queue {
            let pkt = Packet::PlayerLeft { player_id: slot_player_id, reason: LeaveReason::LeaveDisconnect };
            let target = Everyone;
            let ghost mid = shared.players();
            let sent = shared.broadcast(pkt, target);
            proof {
                assert(shared.players().dom() =~= before.dom());
                assert(mid.contains_key(player_id));
                assert forall|id: i32| #[trigger] before.contains_key(id) && id != player_id implies if before[id].connected() {
                    offered(
                        before[id],
                        shared.players()[id],
                        player_left_frame(slot_player_id, LeaveReason::LeaveDisconnect),
                    )
                } else {
                    shared.players()[id] == before[id]
                } by {
                    assert(mid.contains_key(id));
                    assert(mid[id] == before[id]);
                }
            }
            match sent {
                Ok(()) => Ok(DispatchResult::Continue),
                Err(e) => Err(e),
            }
        } else {
            proof {
                assert(shared.players() =~= before);
            }
            Ok(DispatchResult::Continue)
        }
    }
}

/// What `State::dispatch` does with a message: the counters and the player
/// table after it, and what is left to do.
pub open spec fn dispatch_step(
    state: State,
    players: Map<i32, PlayerView>,
    msg: Message,
    state_after: State,
    players_after: Map<i32, PlayerView>,
    r: Result<DispatchResult, Error>,
) -> bool {
    match msg {
        Message::Incoming { player_id, slot_player_id, frame } => match frame {
            Frame::W3gs(Packet::OutgoingAction { data }) => {
                &&& r == Ok::<DispatchResult, Error>(
                    DispatchResult::Action(PlayerAction { player_id: slot_player_id, data }),
                )
                &&& state_after == state
                &&& players_after == players
            },
            Frame::W3gs(packet) => w3gs_step(
                state,
                players,
                player_id,
                slot_player_id,
                packet@,
                state_after,
                players_after,
                r,
            ),
            other => {
                &&& r == Ok::<DispatchResult, Error>(flo_step(player_id, other@))
                &&& state_after == state
                &&& players_after == players
            },
        },
        Message::PlayerConnect { player_id, slot_player_id, tx } => {
            &&& state_after == state
            &&& if players.contains_key(player_id) {
                &&& r == Ok::<DispatchResult, Error>(
                    DispatchResult::Event(
                        status_event(
                            player_id,
                            SlotClientStatus::Connected,
                            SlotClientStatusUpdateSource::Node,
                        ),
                    ),
                )
                &&& players_after == players.insert(
                    player_id,
                    players[player_id].with_sink(Some(pushed(tx))),
                )
            } else {
                &&& r == Err::<DispatchResult, Error>(Error::PlayerNotFoundInGame)
                &&& players_after == players
            }
        },
        Message::PlayerDisconnect { player_id, slot_player_id } => {
            &&& r == Ok::<DispatchResult, Error>(
                DispatchResult::Disconnecting {
                    event: status_event(
                        player_id,
                        SlotClientStatus::Disconnected,
                        SlotClientStatusUpdateSource::Node,
                    ),
                    player_id,
                    slot_player_id,
                },
            )
            &&& state_after == state
            &&& players_after == players
        },
    }
}

/// What the players are told when a game starts in which somebody is barred
/// from chat.
pub fn muted_notice() -> (text: &'static str)
    ensures
        text@ == "One or more players in this game have been muted."@,
{
    "One or more players in this game have been muted."
}

/// The lines that the players of `slots` are sent when their game starts.
pub open spec fn start_notices(slots: Seq<PlayerSlot>) -> Seq<Seq<char>> {
    if chat_banned_ids(slots).len() > 0 {
        seq!["One or more players in this game have been muted."@]
    } else {
        Seq::empty()
    }
}

/// Views of a run of lines, in the same order.
pub open spec fn lines_view(lines: Seq<String>) -> Seq<Seq<char>> {
    lines.map_values(|s: String| s@)
}

/// How a run of host lines changes the player table: one `message_step`
/// after the other.
pub open spec fn notices_step(
    before: Map<i32, PlayerView>,
    after: Map<i32, PlayerView>,
    texts: Seq<Seq<char>>,
) -> bool
    decreases texts.len(),
{
    if texts.len() == 0 {
        after == before
    } else {
        exists|mid: Map<i32, PlayerView>|
            #![trigger message_step(mid, after, texts.last())]
            notices_step(before, mid, texts.drop_last()) && message_step(mid, after, texts.last())
    }
}

/// One more line after a run of lines is a longer run of lines.
proof fn lemma_notices_push(
    before: Map<i32, PlayerView>,
    mid: Map<i32, PlayerView>,
    after: Map<i32, PlayerView>,
    texts: Seq<Seq<char>>,
    text: Seq<char>,
)
    requires
        notices_step(before, mid, texts),
        message_step(mid, after, text),
    ensures
        notices_step(before, after, texts.push(text)),
{
    let longer = texts.push(text);
    assert(longer.drop_last() =~= texts);
    assert(notices_step(before, mid, longer.drop_last()) && message_step(mid, after, longer.last()));
}

/// Handle on the dispatcher of one game. Its only business is to release
/// the tick worker, once.
#[derive(Debug)]
pub struct Dispatcher {
    game_id: i32,
    start_tx: Option<tokio::sync::oneshot::Sender<()>>,
}

/// What the two workers of a dispatcher start from.
pub struct Workers {
    pub state: State,
    pub shared: Shared,
    pub start_messages: Vec<String>,
}

impl Dispatcher {
    pub closed spec fn game_id(&self) -> i32 {
        self.game_id
    }

    /// Whether the tick worker has been released.
    pub closed spec fn started(&self) -> bool {
        self.start_tx is None
    }

    /// Sets up the dispatcher of a game: its handle, which holds the start
    /// signal, and what its workers start from.
    pub fn new(game_id: i32, slots: &[PlayerSlot], start_tx: tokio::sync::oneshot::Sender<()>) -> (r: (
        Dispatcher,
        Workers,
    ))
        ensures
            r.0.game_id() == game_id,
            !r.0.started(),
            r.1.state.wf(),
            r.1.state.game_id() == game_id,
            r.1.state.acks() == initial_acks(slots@),
            r.1.state.slot_to_player() == initial_slot_to_player(slots@),
            r.1.state.chat_banned() == chat_banned_ids(slots@),
            r.1.shared.wf(),
            r.1.shared.game_id() == game_id,
            r.1.shared.sent_tick() == 0,
            r.1.shared.players() == initial_players(slots@),
            lines_view(r.1.start_messages@) == start_notices(slots@),
    {
        let state = State::new(game_id, slots);
        let shared = Shared::new(game_id, slots);
        let mut start_messages: Vec<String> = Vec::new();
        if state.chat_banned_player_ids.len() > 0 {
            start_messages.push(muted_notice().to_owned());
        }
        assert(lines_view(start_messages@) =~= start_notices(slots@));
        (Dispatcher { game_id, start_tx: Some(start_tx) }, Workers { state, shared, start_messages })
    }

    /// Releases the tick worker. Only the first call does anything.
    pub fn start(&mut self)
        ensures
            final(self).started(),
            final(self).game_id() == old(self).game_id(),
            old(self).started() ==> *final(self) == *old(self),
    {
        match self.start_tx.take() {
            Some(tx) => {
                fire(tx);
            },
            None => {},
        }
    }

    pub fn is_started(&self) -> (r: bool)
        ensures
            r == self.started(),
    {
        self.start_tx.is_none()
    }
}

/// What the state worker hands to the tick worker.
#[derive(Debug)]
pub enum ActionMsg {
    PlayerAction(PlayerAction),
}

/// The tick worker of a dispatcher, from the moment it is released: it
/// greets the players, collects their actions and turns every beat of the
/// timer into one broadcast tick.
pub struct TickWorker {
    tick_stream: ActionTickStream,
}

impl TickWorker {
    /// The actions that wait for the next tick.
    pub closed spec fn pending(&self) -> Seq<PlayerActionView> {
        self.tick_stream.pending()
    }

    /// The time that every tick covers.
    pub closed spec fn step(&self) -> u16 {
        self.tick_stream.step()
    }

    /// Starts the worker once the start signal has come: the start lines go
    /// out, each to every connected player, and the collecting begins.
    pub fn start(shared: &mut Shared, start_messages: &Vec<String>) -> (worker: TickWorker)
        requires
            old(shared).wf(),
        ensures
            worker.step() == GAME_DEFAULT_STEP_MS,
            worker.pending() == Seq::<PlayerActionView>::empty(),
            final(shared).wf(),
            final(shared).game_id() == old(shared).game_id(),
            final(shared).sent_tick() == old(shared).sent_tick(),
            notices_step(old(shared).players(), final(shared).players(), lines_view(start_messages@)),
    {
        let tick_stream = ActionTickStream::new(GAME_DEFAULT_STEP_MS);
        let mut i: usize = 0;
        assert(lines_view(start_messages@.take(0)) =~= Seq::<Seq<char>>::empty());
        while i < start_messages.len()
            invariant
                i <= start_messages.len(),
                shared.wf(),
                shared.game_id() == old(shared).game_id(),
                shared.sent_tick() == old(shared).sent_tick(),
                notices_step(
                    old(shared).players(),
                    shared.players(),
                    lines_view(start_messages@.take(i as int)),
                ),
            decreases start_messages.len() - i,
        {
            let ghost mid = shared.players();
            shared.broadcast_message(start_messages[i].as_str());
            proof {
                let texts = lines_view(start_messages@.take(i + 1));
                assert(texts.drop_last() =~= lines_view(start_messages@.take(i as int)));
                assert(texts.last() == start_messages@[i as int]@);
                lemma_notices_push(
                    old(shared).players(),
                    mid,
                    shared.players(),
                    lines_view(start_messages@.take(i as int)),
                    start_messages@[i as int]@,
                );
                assert(texts =~= lines_view(start_messages@.take(i as int)).push(start_messages@[i as int]@));
            }
            i += 1;
        }
        assert(start_messages@.take(start_messages.len() as int) =~= start_messages@);
        TickWorker { tick_stream }
    }

    /// Takes in what the state worker sent.
    pub fn accept(&mut self, msg: ActionMsg)
        ensures
            final(self).step() == old(self).step(),
            match msg {
                ActionMsg::PlayerAction(action) => final(self).pending() == old(self).pending().push(
                    action@,
                ),
            },
    {
        match msg {
            ActionMsg::PlayerAction(action) => {
                self.tick_stream.add_player_action(action);
            },
        }
    }

    /// One beat of the timer: everything collected since the last beat goes
    /// out to every player as one tick, in arrival order, and is counted.
    pub fn tick(&mut self, shared: &mut Shared) -> (r: Result<(), Error>)
        requires
            old(shared).wf(),
            old(shared).sent_tick() < u32::MAX,
        ensures
            r is Ok,
            final(self).step() == old(self).step(),
            final(self).pending() == Seq::<PlayerActionView>::empty(),
            final(shared).wf(),
            final(shared).game_id() == old(shared).game_id(),
            final(shared).sent_tick() == old(shared).sent_tick() + 1,
            broadcast_step(
                old(shared).players(),
                final(shared).players(),
                |id: i32| true,
                FrameView::W3gs(
                    PacketView::IncomingAction(
                        TimeSlotView { time_increment_ms: old(self).step(), actions: old(self).pending() },
                    ),
                ),
            ),
    {
        let tick = self.tick_stream.next_tick();
        shared.dispatch_action_tick(tick)
    }
}

/// The counter of a player never goes down, and while acknowledgements come
/// only for ticks that were sent, no counter passes the number of ticks
/// sent: whatever message the dispatcher handles.
pub proof fn lemma_acks_bounded(
    state: State,
    players: Map<i32, PlayerView>,
    msg: Message,
    state_after: State,
    players_after: Map<i32, PlayerView>,
    r: Result<DispatchResult, Error>,
    sent_tick: u32,
)
    requires
        dispatch_step(state, players, msg, state_after, players_after, r),
        state.acks_within(sent_tick),
        msg matches Message::Incoming { player_id, frame, .. } ==> ((frame matches Frame::W3gs(
            Packet::OutgoingKeepAlive { .. },
        )) && state.acks().contains_key(player_id) ==> state.acks()[player_id] < sent_tick),
    ensures
        state_after.acks().dom() == state.acks().dom(),
        forall|id: i32| #[trigger]
            state.acks().contains_key(id) ==> state.acks()[id] <= state_after.acks()[id],
        state_after.acks_within(sent_tick),
{
    match msg {
        Message::Incoming { player_id, slot_player_id, frame } => {
            match frame {
                Frame::W3gs(Packet::OutgoingKeepAlive { .. }) => {
                    assert(state_after.acks() == acked(state.acks(), player_id));
                    if state.acks().contains_key(player_id) {
                        assert(state_after.acks().dom() =~= state.acks().dom());
                    }
                },
                _ => {},
            }
        },
        _ => {},
    }
}

/// Sending one more tick keeps every counter within the number of ticks
/// sent.
pub proof fn lemma_tick_keeps_acks_within(state: State, sent_tick: u32)
    requires
        state.acks_within(sent_tick),
        sent_tick < u32::MAX,
    ensures
        state.acks_within((sent_tick + 1) as u32),
{
}

/// A player who asks to leave is never told of it: the queue is gone once
/// the request is handled, and the last it was offered is the confirmation.
pub proof fn lemma_leaver_not_told(
    before: Map<i32, PlayerView>,
    after: Map<i32, PlayerView>,
    player_id: i32,
    slot_player_id: u8,
    reason: LeaveReason,
)
    requires
        leave_step(before, after, player_id, slot_player_id, reason),
    ensures
        !after[player_id].connected(),
        before[player_id].connected() ==> {
            &&& after[player_id].handed == before[player_id].handed.push(leave_ack_frame())
            &&& {
                ||| after[player_id].retired == Some(before[player_id].sink->0)
                ||| after[player_id].retired == Some(before[player_id].sink->0.push(leave_ack_frame()))
            }
        },
        !before[player_id].connected() ==> after[player_id] == before[player_id],
{
}

/// A player whose connection is lost is never told of it: the queue is gone
/// before the others are told, with nothing added to what it had taken.
pub proof fn lemma_lost_player_not_told(
    before: Map<i32, PlayerView>,
    after: Map<i32, PlayerView>,
    player_id: i32,
    slot_player_id: u8,
)
    requires
        disconnect_step(before, after, player_id, slot_player_id),
    ensures
        !after[player_id].connected(),
        after[player_id].handed == before[player_id].handed,
        before[player_id].connected() ==> after[player_id].retired == before[player_id].sink,
        !before[player_id].connected() ==> after[player_id] == before[player_id],
{
}

/// A broadcast passes over every player who has no queue, whoever it is
/// meant for, and leaves such a player without one.
pub proof fn lemma_broadcast_omits_disconnected(
    before: Map<i32, PlayerView>,
    after: Map<i32, PlayerView>,
    recipients: spec_fn(i32) -> bool,
    frame: FrameView,
    player_id: i32,
)
    requires
        broadcast_step(before, after, recipients, frame),
        before.contains_key(player_id),
        !before[player_id].connected(),
    ensures
        after[player_id] == before[player_id],
        !after[player_id].connected(),
{
}

/// A line typed in a running game by a player who is barred from chat
/// reaches nobody, while for any other line the ban list plays no part.
pub proof fn lemma_muted_chat(
    chat_banned: Seq<i32>,
    slot_to_player: Map<u8, i32>,
    before: Map<i32, PlayerView>,
    after: Map<i32, PlayerView>,
    player_id: i32,
    chat: ChatView,
)
    requires
        chat_step(chat_banned, slot_to_player, before, after, player_id, chat),
    ensures
        chat_banned.contains(player_id) && chat.message.in_game() ==> after == before,
        !chat.message.in_game() ==> chat_step(
            Seq::empty(),
            slot_to_player,
            before,
            after,
            player_id,
            chat,
        ),
        forall|id: i32|
            chat_recipients(slot_to_player, chat.to_players, player_id).contains(id) ==> id != player_id,
{
    lemma_sender_not_recipient(slot_to_player, chat.to_players, player_id);
}

/// A chat line never goes back to its sender.
pub proof fn lemma_sender_not_recipient(slot_to_player: Map<u8, i32>, to_players: Seq<u8>, sender: i32)
    ensures
        forall|id: i32| chat_recipients(slot_to_player, to_players, sender).contains(id) ==> id != sender,
    decreases to_players.len(),
{
    if to_players.len() > 0 {
        lemma_sender_not_recipient(slot_to_player, to_players.drop_last(), sender);
        let rest = chat_recipients(slot_to_player, to_players.drop_last(), sender);
        let all = chat_recipients(slot_to_player, to_players, sender);
        assert forall|id: i32| all.contains(id) implies id != sender by {
            let i = choose|i: int| 0 <= i < all.len() && all[i] == id;
            if i < rest.len() {
                assert(rest[i] == id);
                assert(rest.contains(id));
            }
        }
    }
}

/// The slot of index `i` leads to its player: the wire id of a slot is
/// its index plus one, never zero, and it leads to the slot's player unless
/// a later slot has the same index.
pub proof fn lemma_slot_lookup(slots: Seq<PlayerSlot>, i: int)
    requires
        0 <= i < slots.len(),
        forall|j: int| i < j < slots.len() ==> (#[trigger] slots[j]).id != slots[i].id,
        forall|j: int| 0 <= j < slots.len() ==> (#[trigger] slots[j]).id < 255,
    ensures
        slots[i].slot_player_id() == slots[i].id + 1,
        slots[i].slot_player_id() != 0,
        initial_slot_to_player(slots).contains_key(slots[i].slot_player_id()),
        initial_slot_to_player(slots)[slots[i].slot_player_id()] == slots[i].player.player_id,
    decreases slots.len(),
{
    if i < slots.len() - 1 {
        let rest = slots.drop_last();
        assert(rest[i] == slots[i]);
        assert forall|j: int| i < j < rest.len() implies (#[trigger] rest[j]).id != rest[i].id by {
            assert(rest[j] == slots[j]);
        }
        assert forall|j: int| 0 <= j < rest.len() implies (#[trigger] rest[j]).id < 255 by {
            assert(rest[j] == slots[j]);
        }
        lemma_slot_lookup(rest, i);
        assert(slots.last() == slots[slots.len() - 1]);
        assert(slots.last().id != slots[i].id);
    }
}

} // verus!
