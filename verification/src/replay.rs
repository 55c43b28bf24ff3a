//! Builds the records of a replay from the description of a game and from
//! what the node broadcast while the game ran. Writing the records to a file
//! is the business of an encoder outside this crate.

use vstd::prelude::*;
use crate::game::{Computer, GameInfo as Game, Race, Slot, SlotStatus};
use crate::slot::{index_to_player_id, slot_player_id_of, FLO_OB_SLOT, MAX_SLOTS};
use crate::w3gs::{
    ChatMessage, ChatMessageView, LeaveReason, Packet, PacketView, TimeSlot, TimeSlotView,
};

verus! {

/// Why no replay could be built.
#[derive(Clone, Copy, Debug, PartialEq, Eq, Structural)]
pub enum Error {
    /// No occupied slot of the game has a player.
    GameHasNoPlayer,
    /// The slot that is reserved for the observer is occupied.
    FloObserverSlotOccupied,
}

/// The wire id of the observer that every replay lists.
pub const FLO_PLAYER_ID: u8 = 24;

/// Which chat lines a replay keeps.
#[derive(Clone, Copy, Debug, PartialEq, Eq, Structural)]
pub enum ReplayChatPolicy {
    NoChats,
    IncludeChatVisibleToObservers,
    IncludeAllChats,
}

/// What an archive of a game holds, record by record.
#[derive(Debug)]
pub enum GameRecordData {
    W3GS(Packet),
    StartLag,
    StopLag,
    GameEnd,
    TickChecksum { tick: u32, checksum: u32 },
    RTTStats,
}

/// What `generate_replay` works on.
#[derive(Debug)]
pub struct GenerateReplayOptions {
    pub game: Game,
    pub archive: Vec<GameRecordData>,
    pub chat_policy: ReplayChatPolicy,
}

/// A player as a replay lists them.
#[derive(Debug, PartialEq, Eq)]
pub struct PlayerInfo {
    pub id: u8,
    pub name: String,
}

/// The map of a replay's game. Size and checksum are not known to the
/// builder: it writes zero for the size and all ones for the checksum.
#[derive(Debug, PartialEq, Eq)]
pub struct GameSettingsMap {
    pub path: String,
    pub width: u16,
    pub height: u16,
    pub sha1: [u8; 20],
    pub checksum: u32,
}

/// The head of a replay: the first player, the game's name and its map.
#[derive(Debug, PartialEq, Eq)]
pub struct GameInfo {
    pub host: PlayerInfo,
    pub name: String,
    pub map: GameSettingsMap,
}

/// How a slot's race is written in a replay.
#[derive(Clone, Copy, Debug, PartialEq, Eq, Structural)]
pub enum RacePref {
    Human,
    Orc,
    NightElf,
    Undead,
    Random,
}

/// How a computer player's strength is written in a replay.
#[derive(Clone, Copy, Debug, PartialEq, Eq, Structural)]
pub enum AI {
    ComputerEasy,
    ComputerNormal,
    ComputerInsane,
}

/// One row of a replay's slot table.
#[derive(Clone, Copy, Debug, PartialEq, Eq, Structural)]
pub struct SlotData {
    pub player_id: u8,
    pub download_status: u8,
    pub slot_status: SlotStatus,
    pub computer: bool,
    pub team: u8,
    pub color: u8,
    pub race: RacePref,
    pub computer_type: AI,
    pub handicap: u8,
}

/// A replay's slot table.
#[derive(Debug, PartialEq, Eq)]
pub struct SlotInfo {
    pub random_seed: i32,
    pub num_players: usize,
    pub slots: Vec<SlotData>,
}

/// The structured messages that a replay carries besides the game's own.
#[derive(Debug, PartialEq, Eq)]
pub enum ProtoBufPayload {
    PlayerSkins { player_id: u32 },
    PlayerProfile { player_id: u32, battle_tag: String, portrait: String },
    PlayerUnknown5 { player_id: u32, unknown_1: u32 },
}

/// One record of a replay.
#[derive(Debug, PartialEq, Eq)]
pub enum Record {
    GameInfo(GameInfo),
    PlayerInfo { player_info: PlayerInfo, unknown: u32 },
    ProtoBuf(ProtoBufPayload),
    SlotInfo(SlotInfo),
    CountDownStart,
    CountDownEnd,
    GameStart,
    PlayerLeft { reason: LeaveReason, player_id: u8, result: u32, unknown: u32 },
    ChatMessage { player_id: u8, message: ChatMessage },
    TimeSlot(TimeSlot),
    TimeSlotAck { checksum: u32 },
}

pub struct PlayerInfoView {
    pub id: u8,
    pub name: Seq<char>,
}

impl View for PlayerInfo {
    type V = PlayerInfoView;

    open spec fn view(&self) -> PlayerInfoView {
        PlayerInfoView { id: self.id, name: self.name@ }
    }
}

pub struct GameInfoView {
    pub host: PlayerInfoView,
    pub name: Seq<char>,
    pub map_path: Seq<char>,
    pub map_width: u16,
    pub map_height: u16,
    pub map_sha1: [u8; 20],
    pub map_checksum: u32,
}

impl View for GameInfo {
    type V = GameInfoView;

    open spec fn view(&self) -> GameInfoView {
        GameInfoView {
            host: self.host@,
            name: self.name@,
            map_path: self.map.path@,
            map_width: self.map.width,
            map_height: self.map.height,
            map_sha1: self.map.sha1,
            map_checksum: self.map.checksum,
        }
    }
}

pub struct SlotInfoView {
    pub random_seed: i32,
    pub num_players: usize,
    pub slots: Seq<SlotData>,
}

impl View for SlotInfo {
    type V = SlotInfoView;

    open spec fn view(&self) -> SlotInfoView {
        SlotInfoView { random_seed: self.random_seed, num_players: self.num_players, slots: self.slots@ }
    }
}

pub enum ProtoBufView {
    PlayerSkins { player_id: u32 },
    PlayerProfile { player_id: u32, battle_tag: Seq<char>, portrait: Seq<char> },
    PlayerUnknown5 { player_id: u32, unknown_1: u32 },
}

impl View for ProtoBufPayload {
    type V = ProtoBufView;

    open spec fn view(&self) -> ProtoBufView {
        match *self {
            ProtoBufPayload::PlayerSkins { player_id } => ProtoBufView::PlayerSkins { player_id },
            ProtoBufPayload::PlayerProfile { player_id, battle_tag, portrait } => ProtoBufView::PlayerProfile {
                player_id,
                battle_tag: battle_tag@,
                portrait: portrait@,
            },
            ProtoBufPayload::PlayerUnknown5 { player_id, unknown_1 } => ProtoBufView::PlayerUnknown5 {
                player_id,
                unknown_1,
            },
        }
    }
}

pub enum RecordView {
    GameInfo(GameInfoView),
    PlayerInfo { player_info: PlayerInfoView, unknown: u32 },
    ProtoBuf(ProtoBufView),
    SlotInfo(SlotInfoView),
    CountDownStart,
    CountDownEnd,
    GameStart,
    PlayerLeft { reason: LeaveReason, player_id: u8, result: u32, unknown: u32 },
    ChatMessage { player_id: u8, message: ChatMessageView },
    TimeSlot(TimeSlotView),
    TimeSlotAck { checksum: u32 },
}

impl View for Record {
    type V = RecordView;

    open spec fn view(&self) -> RecordView {
        match *self {
            Record::GameInfo(info) => RecordView::GameInfo(info@),
            Record::PlayerInfo { player_info, unknown } => RecordView::PlayerInfo {
                player_info: player_info@,
                unknown,
            },
            Record::ProtoBuf(payload) => RecordView::ProtoBuf(payload@),
            Record::SlotInfo(info) => RecordView::SlotInfo(info@),
            Record::CountDownStart => RecordView::CountDownStart,
            Record::CountDownEnd => RecordView::CountDownEnd,
            Record::GameStart => RecordView::GameStart,
            Record::PlayerLeft { reason, player_id, result, unknown } => RecordView::PlayerLeft {
                reason,
                player_id,
                result,
                unknown,
            },
            Record::ChatMessage { player_id, message } => RecordView::ChatMessage {
                player_id,
                message: message@,
            },
            Record::TimeSlot(slot) => RecordView::TimeSlot(slot@),
            Record::TimeSlotAck { checksum } => RecordView::TimeSlotAck { checksum },
        }
    }
}

/// Views of a run of records, in the same order.
pub open spec fn records_view(records: Seq<Record>) -> Seq<RecordView> {
    records.map_values(|r: Record| r@)
}

/// How a replay scores a player's leaving, by the reason given for it.
pub open spec fn leave_result(reason: LeaveReason) -> u32 {
    match reason {
        LeaveReason::LeaveDisconnect => 0x01,
        LeaveReason::LeaveLost => 0x07,
        LeaveReason::LeaveLostBuildings => 0x08,
        LeaveReason::LeaveWon => 0x09,
        _ => 0x0D,
    }
}

/// The record that a broadcast packet leaves in a replay, if any. A player's
/// leaving and every tick are kept. A chat line from the host is kept as the
/// policy says: never, or when the observer is among its recipients, or
/// always. Nothing else is kept.
pub open spec fn record_of(p: PacketView, chat_policy: ReplayChatPolicy) -> Option<RecordView> {
    match p {
        PacketView::PlayerLeft { player_id, reason } => Some(
            RecordView::PlayerLeft { reason, player_id, result: leave_result(reason), unknown: 2 },
        ),
        PacketView::ChatFromHost(chat) => {
            let kept = match chat_policy {
                ReplayChatPolicy::NoChats => false,
                ReplayChatPolicy::IncludeChatVisibleToObservers => chat.to_players.contains(FLO_PLAYER_ID),
                ReplayChatPolicy::IncludeAllChats => true,
            };
            if kept {
                Some(RecordView::ChatMessage { player_id: chat.from_player, message: chat.message })
            } else {
                None
            }
        },
        PacketView::IncomingAction(slot) => Some(RecordView::TimeSlot(slot)),
        _ => None,
    }
}

/// The player whom a broadcast packet reports as gone, if any.
pub open spec fn dropped_by(p: PacketView) -> Option<u8> {
    match p {
        PacketView::PlayerLeft { player_id, .. } => Some(player_id),
        _ => None,
    }
}

/// Whether `id` occurs among `ids`.
fn bytes_contain(ids: &Vec<u8>, id: u8) -> (r: bool)
    ensures
        r == ids@.contains(id),
{
    let mut i: usize = 0;
    while i < ids.len()
        invariant
            i <= ids.len(),
            forall|j: int| 0 <= j < i ==> ids@[j] != id,
        decreases ids.len() - i,
    {
        if ids[i] == id {
            return true;
        }
        i += 1;
    }
    false
}

/// Turns a broadcast packet into the record it leaves in a replay, if any,
/// and names the player it reports as gone, if any.
pub fn convert_packet_to_record(p: Packet, chat_policy: ReplayChatPolicy) -> (r: (Option<Record>, Option<u8>))
    ensures
        match r.0 {
            Some(record) => record_of(p@, chat_policy) == Some(record@),
            None => record_of(p@, chat_policy) is None,
        },
        r.1 == dropped_by(p@),
{
    match p {
        Packet::PlayerLeft { player_id, reason } => {
            let result: u32 = match reason {
                LeaveReason::LeaveDisconnect => 0x01,
                LeaveReason::LeaveLost => 0x07,
                LeaveReason::LeaveLostBuildings => 0x08,
                LeaveReason::LeaveWon => 0x09,
                _ => 0x0D,
            };
            (Some(Record::PlayerLeft { reason, player_id, result, unknown: 2 }), Some(player_id))
        },
        Packet::ChatFromHost(chat) => {
            let kept = match chat_policy {
                ReplayChatPolicy::NoChats => false,
                ReplayChatPolicy::IncludeChatVisibleToObservers => bytes_contain(
                    &chat.to_players,
                    FLO_PLAYER_ID,
                ),
                ReplayChatPolicy::IncludeAllChats => true,
            };
            if kept {
                (Some(Record::ChatMessage { player_id: chat.from_player, message: chat.message }), None)
            } else {
                (None, None)
            }
        },
        Packet::IncomingAction(slot) => (Some(Record::TimeSlot(slot)), None),
        _ => (None, None),
    }
}


/// The records that a run of broadcast packets leaves in a replay, in order.
pub open spec fn kept_records(packets: Seq<PacketView>, chat_policy: ReplayChatPolicy) -> Seq<RecordView>
    decreases packets.len(),
{
    if packets.len() == 0 {
        Seq::empty()
    } else {
        let rest = kept_records(packets.drop_last(), chat_policy);
        match record_of(packets.last(), chat_policy) {
            Some(record) => rest.push(record),
            None => rest,
        }
    }
}

/// Views of a run of packets, in the same order.
pub open spec fn packet_views(packets: Seq<Packet>) -> Seq<PacketView> {
    packets.map_values(|p: Packet| p@)
}

/// The wire id of the slot at place `index`.
pub open spec fn wire_id(index: int) -> u8 {
    slot_player_id_of(index) as u8
}

/// The lowest byte of a number, as a cast to one byte keeps it.
pub open spec fn low_byte(x: i32) -> u8 {
    ((x as int) % 256) as u8
}

/// Cuts a number to its lowest byte.
pub fn to_low_byte(x: i32) -> (r: u8)
    ensures
        r == low_byte(x),
{
    let r: u8 = #[verifier::truncate] (x as u8);
    assert(r as int == (x as int) % 256) by (bit_vector)
        requires
            r == #[verifier::truncate] (x as u8),
    ;
    r
}

/// The places below `upto` of the slots that are occupied, in order.
pub open spec fn occupied_below(slots: Seq<Slot>, upto: int) -> Seq<usize>
    decreases upto,
{
    if upto <= 0 {
        Seq::empty()
    } else {
        let rest = occupied_below(slots, upto - 1);
        if slots[upto - 1].occupied() {
            rest.push((upto - 1) as usize)
        } else {
            rest
        }
    }
}

/// The places below `upto` of the slots that have a player, in order.
pub open spec fn seated_below(slots: Seq<Slot>, upto: int) -> Seq<usize>
    decreases upto,
{
    if upto <= 0 {
        Seq::empty()
    } else {
        let rest = seated_below(slots, upto - 1);
        if slots[upto - 1].player is Some {
            rest.push((upto - 1) as usize)
        } else {
            rest
        }
    }
}

/// The place of the first occupied slot, from `from` on, that has a player.
pub open spec fn host_from(slots: Seq<Slot>, from: int) -> Option<int>
    decreases slots.len() - from,
{
    if from < 0 || from >= slots.len() {
        None
    } else if slots[from].occupied() && slots[from].player is Some {
        Some(from)
    } else {
        host_from(slots, from + 1)
    }
}

/// The name of the player in the slot at `place`.
pub open spec fn name_at(slots: Seq<Slot>, place: int) -> Seq<char> {
    slots[place].player->0.name@
}

/// The head of the replay of `game` when the slot at `host` holds its first
/// player.
pub open spec fn head_of(game: Game, host: int) -> GameInfoView {
    GameInfoView {
        host: PlayerInfoView { id: wire_id(host), name: name_at(game.slots@, host) },
        name: game.name@,
        map_path: game.map.path@,
        map_width: 0,
        map_height: 0,
        map_sha1: game.map.sha1,
        map_checksum: 0xFFFF_FFFF,
    }
}

/// A slot is listed as occupied exactly when it is.
pub proof fn lemma_occupied_below(slots: Seq<Slot>, upto: int)
    requires
        0 <= upto <= slots.len(),
        slots.len() <= usize::MAX,
    ensures
        forall|k: int|
            0 <= k < occupied_below(slots, upto).len() ==> {
                &&& 0 <= (#[trigger] occupied_below(slots, upto)[k]) < upto
                &&& slots[occupied_below(slots, upto)[k] as int].occupied()
            },
        forall|i: int|
            0 <= i < upto && slots[i].occupied() ==> occupied_below(slots, upto).contains(i as usize),
        occupied_below(slots, upto).len() <= upto,
    decreases upto,
{
    if upto > 0 {
        lemma_occupied_below(slots, upto - 1);
        let rest = occupied_below(slots, upto - 1);
        let all = occupied_below(slots, upto);
        assert forall|i: int| 0 <= i < upto && slots[i].occupied() implies all.contains(i as usize) by {
            if i < upto - 1 {
                let k = choose|k: int| 0 <= k < rest.len() && rest[k] == i as usize;
                assert(all[k] == i as usize);
            } else {
                assert(all[all.len() - 1] == i as usize);
            }
        }
    }
}

/// Views of a run of listed players, in the same order.
pub open spec fn player_infos_view(infos: Seq<PlayerInfo>) -> Seq<PlayerInfoView> {
    infos.map_values(|p: PlayerInfo| p@)
}

/// Views of a run of structured messages, in the same order.
pub open spec fn payloads_view(payloads: Seq<ProtoBufPayload>) -> Seq<ProtoBufView> {
    payloads.map_values(|p: ProtoBufPayload| p@)
}

/// The profile that a replay carries for a player.
pub open spec fn profile_view(player_id: u8, name: Seq<char>) -> ProtoBufView {
    ProtoBufView::PlayerProfile { player_id: player_id as u32, battle_tag: name, portrait: "p042"@ }
}

/// The skins message that a replay carries for a player.
pub open spec fn skins_view(player_id: u8) -> ProtoBufView {
    ProtoBufView::PlayerSkins { player_id: player_id as u32 }
}

/// The wire ids of the slots at `seats`.
pub open spec fn ids_of(seats: Seq<usize>) -> Seq<u8> {
    seats.map_values(|k: usize| wire_id(k as int))
}

/// The skins messages of the players at `seats`.
pub open spec fn skins_of(seats: Seq<usize>) -> Seq<ProtoBufView> {
    seats.map_values(|k: usize| skins_view(wire_id(k as int)))
}

/// The profiles of the players at `seats`.
pub open spec fn profiles_of(slots: Seq<Slot>, seats: Seq<usize>) -> Seq<ProtoBufView> {
    seats.map_values(|k: usize| profile_view(wire_id(k as int), name_at(slots, k as int)))
}

/// The players at `seats` as a replay lists them.
pub open spec fn infos_of(slots: Seq<Slot>, seats: Seq<usize>) -> Seq<PlayerInfoView> {
    seats.map_values(|k: usize| PlayerInfoView { id: wire_id(k as int), name: name_at(slots, k as int) })
}

/// All seats but the first.
pub open spec fn later_seats(seats: Seq<usize>) -> Seq<usize> {
    if seats.len() == 0 {
        seats
    } else {
        seats.drop_first()
    }
}

/// The observer as a replay lists it.
pub open spec fn flo_info() -> PlayerInfoView {
    PlayerInfoView { id: FLO_PLAYER_ID, name: "FLO"@ }
}

/// The profile of a player.
fn player_profile(player_id: u8, name: &str) -> (p: ProtoBufPayload)
    ensures
        p@ == profile_view(player_id, name@),
{
    ProtoBufPayload::PlayerProfile {
        player_id: player_id as u32,
        battle_tag: name.to_owned(),
        portrait: "p042".to_owned(),
    }
}

/// Finds the first player of a game and lists its occupied slots. The first
/// player is the one in the first occupied slot that has a player.
pub fn regenerate_game_info(game: &Game) -> (r: Result<(GameInfo, Vec<usize>, u8, String), Error>)
    ensures
        match host_from(game.slots@, 0) {
            None => r == Err::<(GameInfo, Vec<usize>, u8, String), Error>(Error::GameHasNoPlayer),
            Some(host) => {
                &&& r matches Ok(out)
                &&& out.0@ == head_of(*game, host)
                &&& out.1@ == occupied_below(game.slots@, game.slots@.len() as int)
                &&& out.2 == wire_id(host)
                &&& out.3@ == name_at(game.slots@, host)
            },
        },
{
    let slots = &game.slots;
    let mut occupied_slots: Vec<usize> = Vec::new();
    let mut i: usize = 0;
    while i < slots.len()
        invariant
            i <= slots.len(),
            occupied_slots@ == occupied_below(slots@, i as int),
        decreases slots.len() - i,
    {
        if slots[i].is_occupied() {
            occupied_slots.push(i);
        }
        i += 1;
    }
    let mut h: usize = 0;
    while h < slots.len()
        invariant
            h <= slots.len(),
            slots@ == game.slots@,
            occupied_slots@ == occupied_below(slots@, slots@.len() as int),
            host_from(slots@, 0) == host_from(slots@, h as int),
        decreases slots.len() - h,
    {
        if slots[h].is_occupied() {
            match &slots[h].player {
                Some(player) => {
                    let name = player.name.clone();
                    let id = index_to_player_id(h);
                    let info = GameInfo {
                        host: PlayerInfo { id, name: name.clone() },
                        name: game.name.clone(),
                        map: GameSettingsMap {
                            path: game.map.path.clone(),
                            width: 0,
                            height: 0,
                            sha1: game.map.sha1,
                            checksum: 0xFFFF_FFFF,
                        },
                    };
                    return Ok((info, occupied_slots, id, name));
                },
                None => {},
            }
        }
        h += 1;
    }
    Err(Error::GameHasNoPlayer)
}

/// Refuses a game in which the slot that is kept for the observer is
/// occupied.
pub fn check_flo_ob_slot_not_occupied(occupied_slots: &Vec<usize>) -> (r: Result<bool, Error>)
    ensures
        r == if occupied_slots@.contains(FLO_OB_SLOT) {
            Err::<bool, Error>(Error::FloObserverSlotOccupied)
        } else {
            Ok::<bool, Error>(false)
        },
{
    let mut i: usize = 0;
    while i < occupied_slots.len()
        invariant
            i <= occupied_slots.len(),
            forall|j: int| 0 <= j < i ==> occupied_slots@[j] != FLO_OB_SLOT,
        decreases occupied_slots.len() - i,
    {
        if occupied_slots[i] == FLO_OB_SLOT {
            return Err(Error::FloObserverSlotOccupied);
        }
        i += 1;
    }
    Ok(false)
}

/// Lists the players of a game for its replay: every slot that has a
/// player gives a wire id, a skins message and a profile; every one of them
/// but the first is listed as a player; and the observer is listed and
/// profiled last.
pub fn fill_out_player_details(game: &Game) -> (r: Result<
    (Vec<PlayerInfo>, Vec<ProtoBufPayload>, Vec<ProtoBufPayload>, Vec<u8>),
    Error,
>)
    ensures
        r matches Ok(out) && ({
            let slots = game.slots@;
            let seats = seated_below(slots, slots.len() as int);
            &&& player_infos_view(out.0@) == infos_of(slots, later_seats(seats)).push(flo_info())
            &&& payloads_view(out.1@) == skins_of(seats)
            &&& payloads_view(out.2@) == profiles_of(slots, seats).push(profile_view(FLO_PLAYER_ID, "FLO"@))
            &&& out.3@ == ids_of(seats)
        }),
{
    let slots = &game.slots;
    let mut player_infos: Vec<PlayerInfo> = Vec::new();
    let mut player_skins: Vec<ProtoBufPayload> = Vec::new();
    let mut player_profiles: Vec<ProtoBufPayload> = Vec::new();
    let mut active_player_ids: Vec<u8> = Vec::new();
    let mut is_first_player = true;
    let mut i: usize = 0;
    assert(player_infos_view(player_infos@) =~= Seq::<PlayerInfoView>::empty());
    assert(payloads_view(player_skins@) =~= Seq::<ProtoBufView>::empty());
    assert(payloads_view(player_profiles@) =~= Seq::<ProtoBufView>::empty());
    while i < slots.len()
        invariant
            i <= slots.len(),
            slots@ == game.slots@,
            is_first_player == (seated_below(slots@, i as int).len() == 0),
            player_infos_view(player_infos@) == infos_of(slots@, later_seats(seated_below(slots@, i as int))),
            payloads_view(player_skins@) == skins_of(seated_below(slots@, i as int)),
            payloads_view(player_profiles@) == profiles_of(slots@, seated_below(slots@, i as int)),
            active_player_ids@ == ids_of(seated_below(slots@, i as int)),
        decreases slots.len() - i,
    {
        let ghost seats = seated_below(slots@, i as int);
        let ghost infos_before = player_infos@;
        let ghost skins_before = player_skins@;
        let ghost profiles_before = player_profiles@;
        match &slots[i].player {
            Some(p) => {
                let player_id = index_to_player_id(i);
                active_player_ids.push(player_id);
                if is_first_player {
                    is_first_player = false;
                } else {
                    let info = PlayerInfo { id: player_id, name: p.name.clone() };
                    player_infos.push(info);
                    assert(player_infos_view(player_infos@) =~= player_infos_view(infos_before).push(info@));
                }
                let skins = ProtoBufPayload::PlayerSkins { player_id: player_id as u32 };
                player_skins.push(skins);
                let profile = player_profile(player_id, p.name.as_str());
                player_profiles.push(profile);
                proof {
                    let longer = seats.push(i);
                    assert(payloads_view(player_skins@) =~= payloads_view(skins_before).push(skins@));
                    assert(payloads_view(player_profiles@) =~= payloads_view(profiles_before).push(profile@));
                    assert(ids_of(longer) =~= ids_of(seats).push(wire_id(i as int)));
                    assert(skins_of(longer) =~= skins_of(seats).push(skins_view(wire_id(i as int))));
                    assert(profiles_of(slots@, longer) =~= profiles_of(slots@, seats).push(
                        profile_view(wire_id(i as int), name_at(slots@, i as int)),
                    ));
                    if seats.len() == 0 {
                        assert(later_seats(longer) =~= Seq::<usize>::empty());
                        assert(infos_of(slots@, later_seats(longer)) =~= Seq::<PlayerInfoView>::empty());
                    } else {
                        assert(later_seats(longer) =~= later_seats(seats).push(i));
                        assert(infos_of(slots@, later_seats(longer)) =~= infos_of(slots@, later_seats(seats)).push(
                            PlayerInfoView { id: wire_id(i as int), name: name_at(slots@, i as int) },
                        ));
                    }
                }
            },
            None => {},
        }
        i += 1;
    }
    let ghost infos_before = player_infos@;
    let ghost profiles_before = player_profiles@;
    let flo = PlayerInfo { id: FLO_PLAYER_ID, name: "FLO".to_owned() };
    player_infos.push(flo);
    let flo_profile = player_profile(FLO_PLAYER_ID, "FLO");
    player_profiles.push(flo_profile);
    proof {
        assert(player_infos_view(player_infos@) =~= player_infos_view(infos_before).push(flo@));
        assert(payloads_view(player_profiles@) =~= payloads_view(profiles_before).push(flo_profile@));
    }
    Ok((player_infos, player_skins, player_profiles, active_player_ids))
}


/// A row of the slot table that nothing was written to.
pub open spec fn empty_row() -> SlotData {
    SlotData {
        player_id: 0,
        download_status: 255,
        slot_status: SlotStatus::Open,
        computer: false,
        team: 0,
        color: 0,
        race: RacePref::Random,
        computer_type: AI::ComputerNormal,
        handicap: 100,
    }
}

/// How a replay writes a race.
pub open spec fn race_pref(race: Race) -> RacePref {
    match race {
        Race::Human => RacePref::Human,
        Race::Orc => RacePref::Orc,
        Race::NightElf => RacePref::NightElf,
        Race::Undead => RacePref::Undead,
        Race::Random => RacePref::Random,
    }
}

/// How a replay writes the strength of a computer player.
pub open spec fn ai_of(computer: Computer) -> AI {
    match computer {
        Computer::Easy => AI::ComputerEasy,
        Computer::Normal => AI::ComputerNormal,
        Computer::Insane => AI::ComputerInsane,
    }
}

/// The row of an occupied slot: a player's row carries the player's wire
/// id, a computer's row its strength; both carry the slot's settings, each
/// cut to one byte, and count as fully downloaded.
pub open spec fn seat_row(index: int, slot: Slot) -> SlotData {
    let base = SlotData {
        slot_status: SlotStatus::Occupied,
        race: race_pref(slot.settings.race),
        color: low_byte(slot.settings.color),
        team: low_byte(slot.settings.team),
        handicap: low_byte(slot.settings.handicap),
        download_status: 100,
        ..empty_row()
    };
    if slot.player is Some {
        SlotData { player_id: wire_id(index), ..base }
    } else {
        SlotData { computer: true, computer_type: ai_of(slot.settings.computer), ..base }
    }
}

/// The observer's row, written over whatever row was there.
pub open spec fn flo_row(row: SlotData) -> SlotData {
    SlotData {
        player_id: FLO_PLAYER_ID,
        slot_status: SlotStatus::Occupied,
        race: RacePref::Random,
        color: 0,
        team: 24,
        ..row
    }
}

/// The slot table of a replay: twenty-four rows, one per slot index. An
/// occupied slot has its own row, any other an empty one; and unless the
/// observer's slot counts as occupied, the observer is written into it.
pub open spec fn slot_table(slots: Seq<Slot>, flo_ob_slot_occupied: bool) -> Seq<SlotData> {
    Seq::new(
        MAX_SLOTS as nat,
        |i: int|
            {
                let base = if i < slots.len() && slots[i].occupied() {
                    seat_row(i, slots[i])
                } else {
                    empty_row()
                };
                if i == FLO_OB_SLOT && !flo_ob_slot_occupied {
                    flo_row(base)
                } else {
                    base
                }
            },
    )
}

/// How many of the slots at `occupied` hold a human who plays.
pub open spec fn player_count(slots: Seq<Slot>, occupied: Seq<usize>) -> nat
    decreases occupied.len(),
{
    if occupied.len() == 0 {
        0
    } else {
        let rest = player_count(slots, occupied.drop_last());
        if slots[occupied.last() as int].counts_as_player() {
            rest + 1
        } else {
            rest
        }
    }
}

/// The slot table record of a game's replay.
pub open spec fn slot_info_of(game: Game, flo_ob_slot_occupied: bool) -> SlotInfoView {
    SlotInfoView {
        random_seed: game.random_seed,
        num_players: player_count(
            game.slots@,
            occupied_below(game.slots@, game.slots@.len() as int),
        ) as usize,
        slots: slot_table(game.slots@, flo_ob_slot_occupied),
    }
}

/// The records that list players.
pub open spec fn info_record_views(infos: Seq<PlayerInfoView>) -> Seq<RecordView> {
    infos.map_values(|p: PlayerInfoView| RecordView::PlayerInfo { player_info: p, unknown: 0 })
}

/// The records that carry structured messages.
pub open spec fn payload_record_views(payloads: Seq<ProtoBufView>) -> Seq<RecordView> {
    payloads.map_values(|p: ProtoBufView| RecordView::ProtoBuf(p))
}

/// The records by which the one who recorded the game introduces itself:
/// its skins, a marker, and its profile once for every other party.
pub open spec fn special_records(my_id: u8, my_name: Seq<char>, acks: nat) -> Seq<RecordView> {
    seq![
        RecordView::ProtoBuf(skins_view(my_id)),
        RecordView::ProtoBuf(ProtoBufView::PlayerUnknown5 { player_id: my_id as u32, unknown_1: 1 }),
    ] + Seq::new(acks, |i: int| RecordView::ProtoBuf(profile_view(my_id, my_name)))
}

/// The records with which every replay begins, in order: the head; the
/// players; their skins; their profiles; the recorder's introduction; the
/// slot table; and the three marks of the countdown and the start.
pub open spec fn initial_records(
    head: GameInfoView,
    infos: Seq<PlayerInfoView>,
    skins: Seq<ProtoBufView>,
    profiles: Seq<ProtoBufView>,
    flo_ob_slot_occupied: bool,
    first_player_id: u8,
    first_player_name: Seq<char>,
    game: Game,
) -> Seq<RecordView> {
    let occupied = occupied_below(game.slots@, game.slots@.len() as int);
    let my_id = if flo_ob_slot_occupied {
        first_player_id
    } else {
        FLO_PLAYER_ID
    };
    let my_name = if flo_ob_slot_occupied {
        first_player_name
    } else {
        "FLO"@
    };
    let acks = if flo_ob_slot_occupied {
        occupied.len() - 1
    } else {
        occupied.len() as int
    };
    seq![RecordView::GameInfo(head)] + info_record_views(infos) + payload_record_views(skins)
        + payload_record_views(profiles) + special_records(my_id, my_name, acks as nat) + seq![
        RecordView::SlotInfo(slot_info_of(game, flo_ob_slot_occupied)),
        RecordView::CountDownStart,
        RecordView::CountDownEnd,
        RecordView::GameStart,
    ]
}

fn empty_slot_data() -> (row: SlotData)
    ensures
        row == empty_row(),
{
    SlotData {
        player_id: 0,
        download_status: 255,
        slot_status: SlotStatus::Open,
        computer: false,
        team: 0,
        color: 0,
        race: RacePref::Random,
        computer_type: AI::ComputerNormal,
        handicap: 100,
    }
}

fn to_race_pref(race: Race) -> (r: RacePref)
    ensures
        r == race_pref(race),
{
    match race {
        Race::Human => RacePref::Human,
        Race::Orc => RacePref::Orc,
        Race::NightElf => RacePref::NightElf,
        Race::Undead => RacePref::Undead,
        Race::Random => RacePref::Random,
    }
}

fn to_ai(computer: Computer) -> (r: AI)
    ensures
        r == ai_of(computer),
{
    match computer {
        Computer::Easy => AI::ComputerEasy,
        Computer::Normal => AI::ComputerNormal,
        Computer::Insane => AI::ComputerInsane,
    }
}

/// The slot table record of a game.
fn build_slot_info(game: &Game, occupied_slots: &Vec<usize>, flo_ob_slot_occupied: bool) -> (info: SlotInfo)
    requires
        game.slots.len() <= MAX_SLOTS,
        occupied_slots@ == occupied_below(game.slots@, game.slots@.len() as int),
    ensures
        info@ == slot_info_of(*game, flo_ob_slot_occupied),
{
    let slots = &game.slots;
    proof {
        lemma_occupied_below(slots@, slots@.len() as int);
    }
    let mut num_players: usize = 0;
    let mut k: usize = 0;
    assert(occupied_slots@.take(0) =~= Seq::<usize>::empty());
    while k < occupied_slots.len()
        invariant
            k <= occupied_slots.len(),
            occupied_slots.len() <= MAX_SLOTS,
            slots@ == game.slots@,
            forall|j: int| 0 <= j < occupied_slots.len() ==> 0 <= #[trigger] occupied_slots@[j] < slots.len(),
            num_players == player_count(slots@, occupied_slots@.take(k as int)),
            num_players <= k,
        decreases occupied_slots.len() - k,
    {
        proof {
            assert(occupied_slots@.take(k + 1).drop_last() =~= occupied_slots@.take(k as int));
        }
        let slot = &slots[occupied_slots[k]];
        if slot.settings.team != 24 && slot.player.is_some() {
            num_players += 1;
        }
        k += 1;
    }
    assert(occupied_slots@.take(occupied_slots.len() as int) =~= occupied_slots@);
    let mut table: Vec<SlotData> = Vec::new();
    let mut n: usize = 0;
    while n < MAX_SLOTS
        invariant
            n <= MAX_SLOTS,
            table.len() == n,
            forall|i: int| 0 <= i < n ==> table@[i] == empty_row(),
        decreases MAX_SLOTS - n,
    {
        table.push(empty_slot_data());
        n += 1;
    }
    let mut k: usize = 0;
    while k < occupied_slots.len()
        invariant
            k <= occupied_slots.len(),
            slots@ == game.slots@,
            slots.len() <= MAX_SLOTS,
            table.len() == MAX_SLOTS,
            forall|j: int| 0 <= j < occupied_slots.len() ==> 0 <= #[trigger] occupied_slots@[j] < slots.len(),
            forall|i: int|
                0 <= i < MAX_SLOTS ==> #[trigger] table@[i] == if occupied_slots@.take(k as int).contains(
                    i as usize,
                ) {
                    seat_row(i, slots@[i])
                } else {
                    empty_row()
                },
        decreases occupied_slots.len() - k,
    {
        let i = occupied_slots[k];
        let player_slot = &slots[i];
        let base = SlotData {
            player_id: 0,
            download_status: 100,
            slot_status: SlotStatus::Occupied,
            computer: false,
            team: to_low_byte(player_slot.settings.team),
            color: to_low_byte(player_slot.settings.color),
            race: to_race_pref(player_slot.settings.race),
            computer_type: AI::ComputerNormal,
            handicap: to_low_byte(player_slot.settings.handicap),
        };
        let row = if player_slot.player.is_some() {
            SlotData { player_id: index_to_player_id(i), ..base }
        } else {
            SlotData { computer: true, computer_type: to_ai(player_slot.settings.computer), ..base }
        };
        let ghost before = table@;
        table.set(i, row);
        proof {
            let earlier = occupied_slots@.take(k as int);
            let now = occupied_slots@.take(k + 1);
            assert(now =~= earlier.push(i));
            assert forall|idx: int| 0 <= idx < MAX_SLOTS implies #[trigger] table@[idx] == if now.contains(
                idx as usize,
            ) {
                seat_row(idx, slots@[idx])
            } else {
                empty_row()
            } by {
                if idx == i {
                    assert(now[k as int] == i);
                } else {
                    assert(table@[idx] == before[idx]);
                    if now.contains(idx as usize) {
                        let j = choose|j: int| 0 <= j < now.len() && now[j] == idx as usize;
                        assert(earlier[j] == idx as usize);
                    }
                    if earlier.contains(idx as usize) {
                        let j = choose|j: int| 0 <= j < earlier.len() && earlier[j] == idx as usize;
                        assert(now[j] == idx as usize);
                    }
                }
            }
        }
        k += 1;
    }
    assert(occupied_slots@.take(occupied_slots.len() as int) =~= occupied_slots@);
    proof {
        assert forall|idx: int| 0 <= idx < MAX_SLOTS implies occupied_slots@.contains(idx as usize) == (idx
            < slots@.len() && slots@[idx].occupied()) by {
            if occupied_slots@.contains(idx as usize) {
                let j = choose|j: int| 0 <= j < occupied_slots@.len() && occupied_slots@[j] == idx as usize;
                assert(slots@[occupied_slots@[j] as int].occupied());
            }
        }
    }
    if !flo_ob_slot_occupied {
        let row = table[FLO_OB_SLOT];
        table.set(
            FLO_OB_SLOT,
            SlotData {
                player_id: index_to_player_id(FLO_OB_SLOT),
                slot_status: SlotStatus::Occupied,
                race: RacePref::Random,
                color: 0,
                team: 24,
                ..row
            },
        );
    }
    assert(table@ =~= slot_table(slots@, flo_ob_slot_occupied));
    SlotInfo { random_seed: game.random_seed, num_players, slots: table }
}

/// Wraps listed players into records.
fn info_records(infos: Vec<PlayerInfo>) -> (records: Vec<Record>)
    ensures
        records_view(records@) == info_record_views(player_infos_view(infos@)),
{
    let mut records: Vec<Record> = Vec::new();
    let ghost all = infos@;
    assert(records_view(records@) =~= info_record_views(player_infos_view(all.take(0))));
    for item in iter: infos
        invariant
            iter.seq() == all,
            records_view(records@) == info_record_views(player_infos_view(all.take(iter.index() as int))),
    {
        let ghost before = records@;
        let ghost i = iter.index() as int;
        let record = Record::PlayerInfo { player_info: item, unknown: 0 };
        records.push(record);
        proof {
            assert(all.take(i + 1) =~= all.take(i).push(all[i]));
            assert(records_view(records@) =~= records_view(before).push(record@));
            assert(info_record_views(player_infos_view(all.take(i + 1))) =~= info_record_views(
                player_infos_view(all.take(i)),
            ).push(record@));
        }
    }
    assert(all.take(all.len() as int) =~= all);
    records
}

/// Wraps structured messages into records.
fn payload_records(payloads: Vec<ProtoBufPayload>) -> (records: Vec<Record>)
    ensures
        records_view(records@) == payload_record_views(payloads_view(payloads@)),
{
    let mut records: Vec<Record> = Vec::new();
    let ghost all = payloads@;
    assert(records_view(records@) =~= payload_record_views(payloads_view(all.take(0))));
    for item in iter: payloads
        invariant
            iter.seq() == all,
            records_view(records@) == payload_record_views(payloads_view(all.take(iter.index() as int))),
    {
        let ghost before = records@;
        let ghost i = iter.index() as int;
        let record = Record::ProtoBuf(item);
        records.push(record);
        proof {
            assert(all.take(i + 1) =~= all.take(i).push(all[i]));
            assert(records_view(records@) =~= records_view(before).push(record@));
            assert(payload_record_views(payloads_view(all.take(i + 1))) =~= payload_record_views(
                payloads_view(all.take(i)),
            ).push(record@));
        }
    }
    assert(all.take(all.len() as int) =~= all);
    records
}

/// Puts together the records with which a replay begins.
pub fn build_initial_records(
    game_info: GameInfo,
    player_infos: Vec<PlayerInfo>,
    player_skins: Vec<ProtoBufPayload>,
    player_profiles: Vec<ProtoBufPayload>,
    flo_ob_slot_occupied: bool,
    first_player_id: u8,
    first_player_name: String,
    game: &Game,
    occupied_slots: &Vec<usize>,
) -> (r: Result<Vec<Record>, Error>)
    requires
        game.slots.len() <= MAX_SLOTS,
        occupied_slots@ == occupied_below(game.slots@, game.slots@.len() as int),
        flo_ob_slot_occupied ==> occupied_slots.len() > 0,
    ensures
        r matches Ok(records) && records_view(records@) == initial_records(
            game_info@,
            player_infos_view(player_infos@),
            payloads_view(player_skins@),
            payloads_view(player_profiles@),
            flo_ob_slot_occupied,
            first_player_id,
            first_player_name@,
            *game,
        ),
{
    proof {
        lemma_occupied_below(game.slots@, game.slots@.len() as int);
    }
    let mut records: Vec<Record> = Vec::new();
    records.push(Record::GameInfo(game_info));
    let ghost mut sofar: Seq<RecordView> = seq![RecordView::GameInfo(game_info@)];
    assert(records_view(records@) =~= sofar);

    let mut part = info_records(player_infos);
    let ghost before = records@;
    let ghost added = part@;
    records.append(&mut part);
    proof {
        assert(records_view(records@) =~= records_view(before) + records_view(added));
        sofar = sofar + info_record_views(player_infos_view(player_infos@));
    }

    let mut part = payload_records(player_skins);
    let ghost before = records@;
    let ghost added = part@;
    records.append(&mut part);
    proof {
        assert(records_view(records@) =~= records_view(before) + records_view(added));
        sofar = sofar + payload_record_views(payloads_view(player_skins@));
    }

    let mut part = payload_records(player_profiles);
    let ghost before = records@;
    let ghost added = part@;
    records.append(&mut part);
    proof {
        assert(records_view(records@) =~= records_view(before) + records_view(added));
        sofar = sofar + payload_record_views(payloads_view(player_profiles@));
    }
    assert(records_view(records@) == sofar);

    let my_id = if flo_ob_slot_occupied {
        first_player_id
    } else {
        index_to_player_id(FLO_OB_SLOT)
    };
    let my_name = if flo_ob_slot_occupied {
        first_player_name.clone()
    } else {
        "FLO".to_owned()
    };
    let ghost before = records@;
    let skins = Record::ProtoBuf(ProtoBufPayload::PlayerSkins { player_id: my_id as u32 });
    let marker = Record::ProtoBuf(ProtoBufPayload::PlayerUnknown5 { player_id: my_id as u32, unknown_1: 1 });
    records.push(skins);
    records.push(marker);
    let ghost intro = sofar;
    proof {
        assert(records_view(records@) =~= records_view(before).push(skins@).push(marker@));
        sofar = sofar + special_records(my_id, my_name@, 0);
        assert(records_view(records@) =~= sofar);
    }
    let ack_player_profile_count = (if flo_ob_slot_occupied {
        0
    } else {
        1
    }) + occupied_slots.len() - 1;
    let mut n: usize = 0;
    while n < ack_player_profile_count
        invariant
            n <= ack_player_profile_count,
            records_view(records@) == intro + special_records(my_id, my_name@, n as nat),
        decreases ack_player_profile_count - n,
    {
        let ghost before = records@;
        let profile = Record::ProtoBuf(player_profile(my_id, my_name.as_str()));
        records.push(profile);
        proof {
            assert(records_view(records@) =~= records_view(before).push(profile@));
            assert(special_records(my_id, my_name@, (n + 1) as nat) =~= special_records(
                my_id,
                my_name@,
                n as nat,
            ).push(profile@));
        }
        n += 1;
    }
    let slot_info = build_slot_info(game, occupied_slots, flo_ob_slot_occupied);
    let ghost before = records@;
    let table = Record::SlotInfo(slot_info);
    records.push(table);
    records.push(Record::CountDownStart);
    records.push(Record::CountDownEnd);
    records.push(Record::GameStart);
    proof {
        assert(records_view(records@) =~= records_view(before) + seq![
            table@,
            RecordView::CountDownStart,
            RecordView::CountDownEnd,
            RecordView::GameStart,
        ]);
    }
    Ok(records)
}


/// How a replay of `game` begins, or why there can be none: the opening
/// records and the wire ids of the players who are in the game.
pub open spec fn replay_start(game: Game) -> Result<(Seq<RecordView>, Seq<u8>), Error> {
    let slots = game.slots@;
    match host_from(slots, 0) {
        None => Err(Error::GameHasNoPlayer),
        Some(host) => if slots.len() > FLO_OB_SLOT && slots[FLO_OB_SLOT as int].occupied() {
            Err(Error::FloObserverSlotOccupied)
        } else {
            let seats = seated_below(slots, slots.len() as int);
            Ok(
                (
                    initial_records(
                        head_of(game, host),
                        infos_of(slots, later_seats(seats)).push(flo_info()),
                        skins_of(seats),
                        profiles_of(slots, seats).push(profile_view(FLO_PLAYER_ID, "FLO"@)),
                        false,
                        wire_id(host),
                        name_at(slots, host),
                        game,
                    ),
                    ids_of(seats),
                ),
            )
        },
    }
}

/// Opens the replay of a game: the records it begins with, and the wire ids
/// of the players who are in the game. A game without a player in an
/// occupied slot has no replay, nor has one whose observer slot is taken.
pub fn initialize_replay(game: &Game) -> (r: Result<(Vec<Record>, Vec<u8>), Error>)
    requires
        game.slots.len() <= MAX_SLOTS,
    ensures
        match replay_start(*game) {
            Ok(start) => r matches Ok(out) && records_view(out.0@) == start.0 && out.1@ == start.1,
            Err(e) => r == Err::<(Vec<Record>, Vec<u8>), Error>(e),
        },
{
    proof {
        lemma_occupied_below(game.slots@, game.slots@.len() as int);
    }
    let (game_info, occupied_slots, first_player_id, first_player_name) = match regenerate_game_info(game) {
        Ok(out) => out,
        Err(e) => {
            return Err(e);
        },
    };
    proof {
        if occupied_slots@.contains(FLO_OB_SLOT) {
            let j = choose|j: int| 0 <= j < occupied_slots@.len() && occupied_slots@[j] == FLO_OB_SLOT;
            assert(game.slots@[occupied_slots@[j] as int].occupied());
        }
    }
    let flo_ob_occupied = match check_flo_ob_slot_not_occupied(&occupied_slots) {
        Ok(occupied) => occupied,
        Err(e) => {
            return Err(e);
        },
    };
    let (player_infos, player_skins, player_profiles, active_player_ids) = match fill_out_player_details(
        game,
    ) {
        Ok(out) => out,
        Err(e) => {
            return Err(e);
        },
    };
    let records = match build_initial_records(
        game_info,
        player_infos,
        player_skins,
        player_profiles,
        flo_ob_occupied,
        first_player_id,
        first_player_name,
        game,
        &occupied_slots,
    ) {
        Ok(records) => records,
        Err(e) => {
            return Err(e);
        },
    };
    Ok((records, active_player_ids))
}

/// The records of the replay of a game of which only the broadcast packets
/// are known: the opening, then what the packets leave, in order.
pub fn generate_replay_from_packets(game: &Game, packets: Vec<Packet>, chat_policy: ReplayChatPolicy) -> (r:
    Result<Vec<Record>, Error>)
    requires
        game.slots.len() <= MAX_SLOTS,
    ensures
        match replay_start(*game) {
            Ok(start) => r matches Ok(records) && records_view(records@) == start.0 + kept_records(
                packet_views(packets@),
                chat_policy,
            ),
            Err(e) => r == Err::<Vec<Record>, Error>(e),
        },
{
    let (mut records, _active_player_ids) = match initialize_replay(game) {
        Ok(out) => out,
        Err(e) => {
            return Err(e);
        },
    };
    let ghost opening = records_view(records@);
    let ghost all = packets@;
    assert(packet_views(all.take(0)) =~= Seq::<PacketView>::empty());
    assert(records_view(records@) =~= opening + kept_records(packet_views(all.take(0)), chat_policy));
    for packet in iter: packets
        invariant
            iter.seq() == all,
            records_view(records@) == opening + kept_records(
                packet_views(all.take(iter.index() as int)),
                chat_policy,
            ),
    {
        let ghost before = records@;
        let ghost i = iter.index() as int;
        let (record, _dropped_player_id) = convert_packet_to_record(packet, chat_policy);
        proof {
            assert(packet_views(all.take(i + 1)).drop_last() =~= packet_views(all.take(i)));
            assert(packet_views(all.take(i + 1)).last() == all[i]@);
        }
        match record {
            Some(rec) => {
                records.push(rec);
                assert(records_view(records@) =~= records_view(before).push(rec@));
                assert(records_view(records@) =~= opening + kept_records(
                    packet_views(all.take(i + 1)),
                    chat_policy,
                ));
            },
            None => {},
        }
    }
    assert(all.take(all.len() as int) =~= all);
    Ok(records)
}

/// The record that an entry of an archive leaves in a replay, if any: a
/// packet leaves what `record_of` says, a checksum its acknowledgement, and
/// nothing else leaves anything.
pub open spec fn archive_record(entry: GameRecordData, chat_policy: ReplayChatPolicy) -> Option<RecordView> {
    match entry {
        GameRecordData::W3GS(p) => record_of(p@, chat_policy),
        GameRecordData::TickChecksum { checksum, .. } => Some(RecordView::TimeSlotAck { checksum }),
        _ => None,
    }
}

/// The player whom an entry of an archive reports as gone, if any.
pub open spec fn archive_dropped(entry: GameRecordData) -> Option<u8> {
    match entry {
        GameRecordData::W3GS(p) => dropped_by(p@),
        _ => None,
    }
}

/// The records that an archive leaves in a replay, in order.
pub open spec fn archive_records(archive: Seq<GameRecordData>, chat_policy: ReplayChatPolicy) -> Seq<
    RecordView,
>
    decreases archive.len(),
{
    if archive.len() == 0 {
        Seq::empty()
    } else {
        let rest = archive_records(archive.drop_last(), chat_policy);
        match archive_record(archive.last(), chat_policy) {
            Some(record) => rest.push(record),
            None => rest,
        }
    }
}

/// The ids without every occurrence of `id`, in the same order.
pub open spec fn without(ids: Seq<u8>, id: u8) -> Seq<u8>
    decreases ids.len(),
{
    if ids.len() == 0 {
        ids
    } else if ids.last() == id {
        without(ids.drop_last(), id)
    } else {
        without(ids.drop_last(), id).push(ids.last())
    }
}

/// The players of `active` whom the archive never reports as gone.
pub open spec fn survivors(active: Seq<u8>, archive: Seq<GameRecordData>) -> Seq<u8>
    decreases archive.len(),
{
    if archive.len() == 0 {
        active
    } else {
        let rest = survivors(active, archive.drop_last());
        match archive_dropped(archive.last()) {
            Some(id) => without(rest, id),
            None => rest,
        }
    }
}

/// The records that close a replay: every player who was never reported
/// as gone leaves by disconnecting when the recording ends.
pub open spec fn closing_records(ids: Seq<u8>) -> Seq<RecordView> {
    ids.map_values(
        |id: u8|
            RecordView::PlayerLeft {
                reason: LeaveReason::LeaveDisconnect,
                player_id: id,
                result: 0x0D,
                unknown: 2,
            },
    )
}

/// Drops every occurrence of `id`.
fn retain_others(ids: &mut Vec<u8>, id: u8)
    ensures
        final(ids)@ == without(old(ids)@, id),
{
    let mut kept: Vec<u8> = Vec::new();
    let mut i: usize = 0;
    assert(ids@.take(0) =~= Seq::<u8>::empty());
    while i < ids.len()
        invariant
            i <= ids.len(),
            *ids == *old(ids),
            kept@ == without(ids@.take(i as int), id),
        decreases ids.len() - i,
    {
        proof {
            assert(ids@.take(i + 1).drop_last() =~= ids@.take(i as int));
        }
        if ids[i] != id {
            kept.push(ids[i]);
        }
        i += 1;
    }
    assert(ids@.take(ids.len() as int) =~= ids@);
    *ids = kept;
}

/// The records of the replay of a game from its archive: the opening; then
/// what the archive leaves, in order; then the leaving of every player whom
/// the archive never reported as gone.
pub fn generate_replay(options: GenerateReplayOptions) -> (r: Result<Vec<Record>, Error>)
    requires
        options.game.slots.len() <= MAX_SLOTS,
    ensures
        match replay_start(options.game) {
            Ok(start) => r matches Ok(records) && records_view(records@) == start.0 + archive_records(
                options.archive@,
                options.chat_policy,
            ) + closing_records(survivors(start.1, options.archive@)),
            Err(e) => r == Err::<Vec<Record>, Error>(e),
        },
{
    let GenerateReplayOptions { game, archive, chat_policy } = options;
    let (mut records, mut active_player_ids) = match initialize_replay(&game) {
        Ok(out) => out,
        Err(e) => {
            return Err(e);
        },
    };
    let ghost opening = records_view(records@);
    let ghost players = active_player_ids@;
    let ghost all = archive@;
    assert(records_view(records@) =~= opening + archive_records(all.take(0), chat_policy));
    for entry in iter: archive
        invariant
            iter.seq() == all,
            records_view(records@) == opening + archive_records(all.take(iter.index() as int), chat_policy),
            active_player_ids@ == survivors(players, all.take(iter.index() as int)),
    {
        let ghost before = records@;
        let ghost i = iter.index() as int;
        proof {
            assert(all.take(i + 1).drop_last() =~= all.take(i));
            assert(all.take(i + 1).last() == all[i]);
        }
        match entry {
            GameRecordData::W3GS(p) => {
                let (record, dropped_player_id) = convert_packet_to_record(p, chat_policy);
                match record {
                    Some(rec) => {
                        records.push(rec);
                        assert(records_view(records@) =~= records_view(before).push(rec@));
                    },
                    None => {},
                }
                match dropped_player_id {
                    Some(id) => {
                        retain_others(&mut active_player_ids, id);
                    },
                    None => {},
                }
            },
            GameRecordData::TickChecksum { checksum, .. } => {
                let rec = Record::TimeSlotAck { checksum };
                records.push(rec);
                assert(records_view(records@) =~= records_view(before).push(rec@));
            },
            _ => {},
        }
        assert(records_view(records@) =~= opening + archive_records(all.take(i + 1), chat_policy));
    }
    assert(all.take(all.len() as int) =~= all);
    let ghost body = records_view(records@);
    let mut k: usize = 0;
    assert(closing_records(active_player_ids@.take(0)) =~= Seq::<RecordView>::empty());
    while k < active_player_ids.len()
        invariant
            k <= active_player_ids.len(),
            records_view(records@) == body + closing_records(active_player_ids@.take(k as int)),
        decreases active_player_ids.len() - k,
    {
        let ghost before = records@;
        let rec = Record::PlayerLeft {
            reason: LeaveReason::LeaveDisconnect,
            player_id: active_player_ids[k],
            result: 0x0D,
            unknown: 2,
        };
        records.push(rec);
        proof {
            assert(records_view(records@) =~= records_view(before).push(rec@));
            assert(active_player_ids@.take(k + 1) =~= active_player_ids@.take(k as int).push(
                active_player_ids@[k as int],
            ));
            assert(closing_records(active_player_ids@.take(k + 1)) =~= closing_records(
                active_player_ids@.take(k as int),
            ).push(rec@));
        }
        k += 1;
    }
    assert(active_player_ids@.take(active_player_ids.len() as int) =~= active_player_ids@);
    Ok(records)
}

} // verus!
