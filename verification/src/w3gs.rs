//! The LAN game packets that the session core reads and writes, in decoded
//! form, and the frames that travel between a node and its players.
//!
//! The wire codec lives outside this crate: it turns bytes into these values
//! and back. Every type that owns a buffer has a mathematical view, so that
//! contracts can say which frame was queued without speaking of allocations.

use vstd::prelude::*;
use crate::status::SlotClientStatus;

verus! {

/// Why a player left the game.
#[derive(Clone, Copy, Debug, PartialEq, Eq, Structural)]
pub enum LeaveReason {
    LeaveDisconnect,
    LeaveLost,
    LeaveLostBuildings,
    LeaveWon,
    LeaveDraw,
    LeaveObserver,
    Unknown(u32),
}

/// Audience of an in-game chat line.
#[derive(Clone, Copy, Debug, PartialEq, Eq, Structural)]
pub enum MessageScope {
    All,
    Allies,
    Observers,
    Other(u32),
}

/// Body of a chat packet. Only `Scoped` is sent while a game is running; the
/// other variants belong to the lobby.
#[derive(Debug, PartialEq, Eq)]
pub enum ChatMessage {
    Chat(String),
    TeamChange(u8),
    ColorChange(u8),
    RaceChange(u8),
    HandicapChange(u8),
    Scoped { scope: MessageScope, message: String },
}

pub enum ChatMessageView {
    Chat(Seq<char>),
    TeamChange(u8),
    ColorChange(u8),
    RaceChange(u8),
    HandicapChange(u8),
    Scoped { scope: MessageScope, message: Seq<char> },
}

impl ChatMessageView {
    /// Whether this is a chat line typed inside a running game.
    pub open spec fn in_game(self) -> bool {
        self is Scoped
    }
}

impl View for ChatMessage {
    type V = ChatMessageView;

    open spec fn view(&self) -> ChatMessageView {
        match *self {
            ChatMessage::Chat(text) => ChatMessageView::Chat(text@),
            ChatMessage::TeamChange(v) => ChatMessageView::TeamChange(v),
            ChatMessage::ColorChange(v) => ChatMessageView::ColorChange(v),
            ChatMessage::RaceChange(v) => ChatMessageView::RaceChange(v),
            ChatMessage::HandicapChange(v) => ChatMessageView::HandicapChange(v),
            ChatMessage::Scoped { scope, message } => ChatMessageView::Scoped { scope, message: message@ },
        }
    }
}

impl ChatMessage {
    pub fn is_in_game_chat(&self) -> (r: bool)
        ensures
            r == self@.in_game(),
    {
        match self {
            ChatMessage::Scoped { .. } => true,
            _ => false,
        }
    }
}

impl Clone for ChatMessage {
    fn clone(&self) -> (r: Self)
        ensures
            r@ == self@,
    {
        match self {
            ChatMessage::Chat(text) => ChatMessage::Chat(text.clone()),
            ChatMessage::TeamChange(v) => ChatMessage::TeamChange(*v),
            ChatMessage::ColorChange(v) => ChatMessage::ColorChange(*v),
            ChatMessage::RaceChange(v) => ChatMessage::RaceChange(*v),
            ChatMessage::HandicapChange(v) => ChatMessage::HandicapChange(*v),
            ChatMessage::Scoped { scope, message } => ChatMessage::Scoped {
                scope: *scope,
                message: message.clone(),
            },
        }
    }
}

/// Copy of a byte buffer.
pub fn clone_bytes(bytes: &Vec<u8>) -> (r: Vec<u8>)
    ensures
        r@ == bytes@,
{
    let mut out: Vec<u8> = Vec::with_capacity(bytes.len());
    let mut i: usize = 0;
    while i < bytes.len()
        invariant
            i <= bytes.len(),
            out@ == bytes@.take(i as int),
        decreases bytes.len() - i,
    {
        out.push(bytes[i]);
        i += 1;
    }
    out
}

/// A chat packet, in either direction: the slot player ids it is meant for,
/// the slot player id it comes from, and its body.
#[derive(Debug, PartialEq, Eq)]
pub struct ChatToHost {
    pub to_players: Vec<u8>,
    pub from_player: u8,
    pub message: ChatMessage,
}

pub struct ChatView {
    pub to_players: Seq<u8>,
    pub from_player: u8,
    pub message: ChatMessageView,
}

impl View for ChatToHost {
    type V = ChatView;

    open spec fn view(&self) -> ChatView {
        ChatView {
            to_players: self.to_players@,
            from_player: self.from_player,
            message: self.message@,
        }
    }
}

impl Clone for ChatToHost {
    fn clone(&self) -> (r: Self)
        ensures
            r@ == self@,
    {
        ChatToHost {
            to_players: clone_bytes(&self.to_players),
            from_player: self.from_player,
            message: self.message.clone(),
        }
    }
}

impl ChatToHost {
    /// What a line looks like that the host shows to one player alone: it is
    /// addressed to the player's own slot id and signed with it.
    pub open spec fn private_view(player_id: u8, text: Seq<char>) -> ChatView {
        ChatView {
            to_players: seq![player_id],
            from_player: player_id,
            message: ChatMessageView::Scoped { scope: MessageScope::All, message: text },
        }
    }

    /// A line from the host for the player at slot id `player_id` alone.
    pub fn private_to_self(player_id: u8, text: &str) -> (chat: ChatToHost)
        ensures
            chat@ == Self::private_view(player_id, text@),
    {
        let mut to_players: Vec<u8> = Vec::new();
        to_players.push(player_id);
        let chat = ChatToHost {
            to_players,
            from_player: player_id,
            message: ChatMessage::Scoped { scope: MessageScope::All, message: text.to_owned() },
        };
        assert(chat@.to_players =~= seq![player_id]);
        chat
    }
}

/// One player's share of a tick: the slot player id and the raw action bytes.
#[derive(Debug, PartialEq, Eq)]
pub struct PlayerAction {
    pub player_id: u8,
    pub data: Vec<u8>,
}

pub struct PlayerActionView {
    pub player_id: u8,
    pub data: Seq<u8>,
}

impl View for PlayerAction {
    type V = PlayerActionView;

    open spec fn view(&self) -> PlayerActionView {
        PlayerActionView { player_id: self.player_id, data: self.data@ }
    }
}

impl Clone for PlayerAction {
    fn clone(&self) -> (r: Self)
        ensures
            r@ == self@,
    {
        PlayerAction { player_id: self.player_id, data: clone_bytes(&self.data) }
    }
}

/// Views of a run of actions, in the same order.
pub open spec fn actions_view(actions: Seq<PlayerAction>) -> Seq<PlayerActionView> {
    actions.map_values(|a: PlayerAction| a@)
}

/// Copy of a run of actions.
pub fn clone_actions(actions: &Vec<PlayerAction>) -> (r: Vec<PlayerAction>)
    ensures
        actions_view(r@) == actions_view(actions@),
{
    let mut out: Vec<PlayerAction> = Vec::with_capacity(actions.len());
    let mut i: usize = 0;
    while i < actions.len()
        invariant
            i <= actions.len(),
            actions_view(out@) == actions_view(actions@.take(i as int)),
        decreases actions.len() - i,
    {
        let ghost before = out@;
        out.push(actions[i].clone());
        proof {
            assert(actions@.take(i + 1) == actions@.take(i as int).push(actions@[i as int]));
            assert(actions_view(out@) =~= actions_view(before).push(actions@[i as int]@));
            assert(actions_view(actions@.take(i + 1)) =~= actions_view(actions@.take(i as int)).push(
                actions@[i as int]@,
            ));
        }
        i += 1;
    }
    proof {
        assert(actions@.take(actions.len() as int) == actions@);
    }
    out
}

/// The actions of one game step and the time the step covers.
#[derive(Debug, PartialEq, Eq)]
pub struct TimeSlot {
    pub time_increment_ms: u16,
    pub actions: Vec<PlayerAction>,
}

pub struct TimeSlotView {
    pub time_increment_ms: u16,
    pub actions: Seq<PlayerActionView>,
}

impl View for TimeSlot {
    type V = TimeSlotView;

    open spec fn view(&self) -> TimeSlotView {
        TimeSlotView {
            time_increment_ms: self.time_increment_ms,
            actions: actions_view(self.actions@),
        }
    }
}

impl Clone for TimeSlot {
    fn clone(&self) -> (r: Self)
        ensures
            r@ == self@,
    {
        TimeSlot {
            time_increment_ms: self.time_increment_ms,
            actions: clone_actions(&self.actions),
        }
    }
}

/// Kind of a packet, as its header names it.
#[derive(Clone, Copy, Debug, PartialEq, Eq, Structural)]
pub enum PacketTypeId {
    LeaveReq,
    LeaveAck,
    PlayerLeft,
    PlayerLoaded,
    GameLoadedSelf,
    OutgoingKeepAlive,
    OutgoingAction,
    IncomingAction,
    ChatToHost,
    ChatFromHost,
    Other(u8),
}

/// A decoded LAN game packet.
#[derive(Debug, PartialEq, Eq)]
pub enum Packet {
    LeaveReq(LeaveReason),
    LeaveAck,
    PlayerLeft { player_id: u8, reason: LeaveReason },
    PlayerLoaded { player_id: u8 },
    GameLoadedSelf,
    OutgoingKeepAlive { unknown: u8, checksum: u32 },
    OutgoingAction { data: Vec<u8> },
    IncomingAction(TimeSlot),
    ChatToHost(ChatToHost),
    ChatFromHost(ChatToHost),
    /// Any other packet, with its payload as it came.
    Other { type_id: u8, payload: Vec<u8> },
}

pub enum PacketView {
    LeaveReq(LeaveReason),
    LeaveAck,
    PlayerLeft { player_id: u8, reason: LeaveReason },
    PlayerLoaded { player_id: u8 },
    GameLoadedSelf,
    OutgoingKeepAlive { unknown: u8, checksum: u32 },
    OutgoingAction { data: Seq<u8> },
    IncomingAction(TimeSlotView),
    ChatToHost(ChatView),
    ChatFromHost(ChatView),
    Other { type_id: u8, payload: Seq<u8> },
}

impl View for Packet {
    type V = PacketView;

    open spec fn view(&self) -> PacketView {
        match *self {
            Packet::LeaveReq(reason) => PacketView::LeaveReq(reason),
            Packet::LeaveAck => PacketView::LeaveAck,
            Packet::PlayerLeft { player_id, reason } => PacketView::PlayerLeft { player_id, reason },
            Packet::PlayerLoaded { player_id } => PacketView::PlayerLoaded { player_id },
            Packet::GameLoadedSelf => PacketView::GameLoadedSelf,
            Packet::OutgoingKeepAlive { unknown, checksum } => PacketView::OutgoingKeepAlive { unknown, checksum },
            Packet::OutgoingAction { data } => PacketView::OutgoingAction { data: data@ },
            Packet::IncomingAction(slot) => PacketView::IncomingAction(slot@),
            Packet::ChatToHost(chat) => PacketView::ChatToHost(chat@),
            Packet::ChatFromHost(chat) => PacketView::ChatFromHost(chat@),
            Packet::Other { type_id, payload } => PacketView::Other { type_id, payload: payload@ },
        }
    }
}

impl PacketView {
    /// Kind of the packet with this view.
    pub open spec fn type_id(self) -> PacketTypeId {
        match self {
            PacketView::LeaveReq(_) => PacketTypeId::LeaveReq,
            PacketView::LeaveAck => PacketTypeId::LeaveAck,
            PacketView::PlayerLeft { .. } => PacketTypeId::PlayerLeft,
            PacketView::PlayerLoaded { .. } => PacketTypeId::PlayerLoaded,
            PacketView::GameLoadedSelf => PacketTypeId::GameLoadedSelf,
            PacketView::OutgoingKeepAlive { .. } => PacketTypeId::OutgoingKeepAlive,
            PacketView::OutgoingAction { .. } => PacketTypeId::OutgoingAction,
            PacketView::IncomingAction(_) => PacketTypeId::IncomingAction,
            PacketView::ChatToHost(_) => PacketTypeId::ChatToHost,
            PacketView::ChatFromHost(_) => PacketTypeId::ChatFromHost,
            PacketView::Other { type_id, .. } => PacketTypeId::Other(type_id),
        }
    }
}

impl Packet {
    pub fn type_id(&self) -> (id: PacketTypeId)
        ensures
            id == self@.type_id(),
    {
        match self {
            Packet::LeaveReq(_) => PacketTypeId::LeaveReq,
            Packet::LeaveAck => PacketTypeId::LeaveAck,
            Packet::PlayerLeft { .. } => PacketTypeId::PlayerLeft,
            Packet::PlayerLoaded { .. } => PacketTypeId::PlayerLoaded,
            Packet::GameLoadedSelf => PacketTypeId::GameLoadedSelf,
            Packet::OutgoingKeepAlive { .. } => PacketTypeId::OutgoingKeepAlive,
            Packet::OutgoingAction { .. } => PacketTypeId::OutgoingAction,
            Packet::IncomingAction(_) => PacketTypeId::IncomingAction,
            Packet::ChatToHost(_) => PacketTypeId::ChatToHost,
            Packet::ChatFromHost(_) => PacketTypeId::ChatFromHost,
            Packet::Other { type_id, .. } => PacketTypeId::Other(*type_id),
        }
    }
}

impl Clone for Packet {
    fn clone(&self) -> (r: Self)
        ensures
            r@ == self@,
    {
        match self {
            Packet::LeaveReq(reason) => Packet::LeaveReq(*reason),
            Packet::LeaveAck => Packet::LeaveAck,
            Packet::PlayerLeft { player_id, reason } => Packet::PlayerLeft {
                player_id: *player_id,
                reason: *reason,
            },
            Packet::PlayerLoaded { player_id } => Packet::PlayerLoaded { player_id: *player_id },
            Packet::GameLoadedSelf => Packet::GameLoadedSelf,
            Packet::OutgoingKeepAlive { unknown, checksum } => Packet::OutgoingKeepAlive {
                unknown: *unknown,
                checksum: *checksum,
            },
            Packet::OutgoingAction { data } => Packet::OutgoingAction { data: clone_bytes(data) },
            Packet::IncomingAction(slot) => Packet::IncomingAction(slot.clone()),
            Packet::ChatToHost(chat) => Packet::ChatToHost(chat.clone()),
            Packet::ChatFromHost(chat) => Packet::ChatFromHost(chat.clone()),
            Packet::Other { type_id, payload } => Packet::Other {
                type_id: *type_id,
                payload: clone_bytes(payload),
            },
        }
    }
}

/// A record on the connection between a node and one player: a wrapped game
/// packet, a player's report of its own slot status, or a control record that
/// the session core does not read.
#[derive(Debug, PartialEq, Eq)]
pub enum Frame {
    W3gs(Packet),
    SlotClientStatusRequest(SlotClientStatus),
    Other { type_id: u8, payload: Vec<u8> },
}

pub enum FrameView {
    W3gs(PacketView),
    SlotClientStatusRequest(SlotClientStatus),
    Other { type_id: u8, payload: Seq<u8> },
}

impl View for Frame {
    type V = FrameView;

    open spec fn view(&self) -> FrameView {
        match *self {
            Frame::W3gs(packet) => FrameView::W3gs(packet@),
            Frame::SlotClientStatusRequest(status) => FrameView::SlotClientStatusRequest(status),
            Frame::Other { type_id, payload } => FrameView::Other { type_id, payload: payload@ },
        }
    }
}

impl Clone for Frame {
    fn clone(&self) -> (r: Self)
        ensures
            r@ == self@,
    {
        match self {
            Frame::W3gs(packet) => Frame::W3gs(packet.clone()),
            Frame::SlotClientStatusRequest(status) => Frame::SlotClientStatusRequest(*status),
            Frame::Other { type_id, payload } => Frame::Other {
                type_id: *type_id,
                payload: clone_bytes(payload),
            },
        }
    }
}

/// Wraps a game packet for the node connection.
pub fn w3gs_to_frame(packet: Packet) -> (frame: Frame)
    ensures
        frame == Frame::W3gs(packet),
{
    Frame::W3gs(packet)
}

} // verus!
