use flo_core::game::{Computer, GameInfo, GameMap, PlayerInfo, Race, Slot, SlotSettings, SlotStatus};
use flo_core::observer::{Error as ObserverError, FloObserver, GameState, Shard};
use flo_core::replay::{
    build_initial_records, check_flo_ob_slot_not_occupied, convert_packet_to_record, fill_out_player_details,
    generate_replay, generate_replay_from_packets, initialize_replay, regenerate_game_info, to_low_byte, Error,
    GameRecordData, GenerateReplayOptions, ProtoBufPayload, RacePref, Record, ReplayChatPolicy, SlotData, AI,
};
use flo_core::w3gs::{ChatMessage, ChatToHost, LeaveReason, MessageScope, Packet, PlayerAction, TimeSlot};

fn settings(status: SlotStatus, team: i32, color: i32) -> SlotSettings {
    SlotSettings { team, color, computer: Computer::Insane, handicap: 100, status, race: Race::Orc }
}

fn human(id: i32, name: &str, team: i32, color: i32) -> Slot {
    Slot { player: Some(PlayerInfo { id, name: name.to_string() }), settings: settings(SlotStatus::Occupied, team, color) }
}

fn computer(team: i32, color: i32) -> Slot {
    Slot { player: None, settings: settings(SlotStatus::Occupied, team, color) }
}

fn open_slot() -> Slot {
    Slot { player: None, settings: settings(SlotStatus::Open, 0, 0) }
}

fn game(slots: Vec<Slot>) -> GameInfo {
    GameInfo {
        id: 1,
        name: "g".to_string(),
        map: GameMap { path: "maps/x.w3x".to_string(), sha1: [7; 20] },
        slots,
        random_seed: 99,
        game_version: "1.32".to_string(),
    }
}

fn small_game() -> GameInfo {
    game(vec![open_slot(), human(10, "ann", 0, 1), computer(1, 2), human(11, "bob", 24, 3)])
}

fn profile(player_id: u32, name: &str) -> Record {
    Record::ProtoBuf(ProtoBufPayload::PlayerProfile {
        player_id,
        battle_tag: name.to_string(),
        portrait: "p042".to_string(),
    })
}

fn chat(to: Vec<u8>, from: u8) -> ChatToHost {
    ChatToHost {
        to_players: to,
        from_player: from,
        message: ChatMessage::Scoped { scope: MessageScope::All, message: "gg".to_string() },
    }
}

fn left(player_id: u8, reason: LeaveReason, result: u32) -> Record {
    Record::PlayerLeft { reason, player_id, result, unknown: 2 }
}

#[test]
fn low_byte_keeps_the_lowest_eight_bits() {
    assert_eq!(to_low_byte(0), 0);
    assert_eq!(to_low_byte(24), 24);
    assert_eq!(to_low_byte(255), 255);
    assert_eq!(to_low_byte(256), 0);
    assert_eq!(to_low_byte(-1), 255);
    assert_eq!(to_low_byte(-256), 0);
    assert_eq!(to_low_byte(i32::MIN), 0);
    assert_eq!(to_low_byte(i32::MAX), 255);
}

#[test]
fn first_player_is_in_the_first_occupied_slot_with_a_player() {
    let g = game(vec![
        Slot { player: Some(PlayerInfo { id: 5, name: "ghost".to_string() }), settings: settings(SlotStatus::Closed, 0, 0) },
        computer(0, 0),
        human(10, "ann", 0, 1),
        human(11, "bob", 1, 2),
    ]);
    let (head, occupied, first_id, first_name) = regenerate_game_info(&g).unwrap();
    assert_eq!(occupied, vec![1, 2, 3]);
    assert_eq!(first_id, 3);
    assert_eq!(first_name, "ann");
    assert_eq!(head.host.id, 3);
    assert_eq!(head.host.name, "ann");
    assert_eq!(head.name, "g");
    assert_eq!(head.map.path, "maps/x.w3x");
    assert_eq!(head.map.sha1, [7; 20]);
    assert_eq!((head.map.width, head.map.height, head.map.checksum), (0, 0, 0xFFFF_FFFF));
}

#[test]
fn game_without_player_has_no_replay() {
    let g = game(vec![computer(0, 0), open_slot()]);
    assert_eq!(regenerate_game_info(&g).err(), Some(Error::GameHasNoPlayer));
    assert_eq!(initialize_replay(&g).err(), Some(Error::GameHasNoPlayer));
    assert_eq!(generate_replay_from_packets(&g, vec![], ReplayChatPolicy::NoChats), Err(Error::GameHasNoPlayer));
    let g = game(vec![]);
    assert_eq!(initialize_replay(&g).err(), Some(Error::GameHasNoPlayer));
}

#[test]
fn occupied_observer_slot_is_refused() {
    assert_eq!(check_flo_ob_slot_not_occupied(&vec![0, 5, 22]), Ok(false));
    assert_eq!(check_flo_ob_slot_not_occupied(&vec![0, 23]), Err(Error::FloObserverSlotOccupied));
    let mut slots = vec![human(10, "ann", 0, 1)];
    while slots.len() < 23 {
        slots.push(open_slot());
    }
    slots.push(computer(0, 0));
    let g = game(slots);
    assert_eq!(initialize_replay(&g).err(), Some(Error::FloObserverSlotOccupied));
    let options = GenerateReplayOptions { game: g, archive: vec![], chat_policy: ReplayChatPolicy::NoChats };
    assert_eq!(generate_replay(options), Err(Error::FloObserverSlotOccupied));
}

#[test]
fn player_details_list_every_seated_slot() {
    let g = game(vec![
        open_slot(),
        human(10, "ann", 0, 1),
        Slot { player: Some(PlayerInfo { id: 12, name: "cy".to_string() }), settings: settings(SlotStatus::Open, 0, 0) },
        human(11, "bob", 24, 3),
    ]);
    let (infos, skins, profiles, active) = fill_out_player_details(&g).unwrap();
    assert_eq!(active, vec![2, 3, 4]);
    let names: Vec<(u8, String)> = infos.into_iter().map(|p| (p.id, p.name)).collect();
    assert_eq!(names, vec![(3, "cy".to_string()), (4, "bob".to_string()), (24, "FLO".to_string())]);
    assert_eq!(
        skins,
        vec![
            ProtoBufPayload::PlayerSkins { player_id: 2 },
            ProtoBufPayload::PlayerSkins { player_id: 3 },
            ProtoBufPayload::PlayerSkins { player_id: 4 },
        ]
    );
    assert_eq!(
        profiles.into_iter().map(Record::ProtoBuf).collect::<Vec<_>>(),
        vec![profile(2, "ann"), profile(3, "cy"), profile(4, "bob"), profile(24, "FLO")]
    );
}

#[test]
fn replay_opening_of_a_small_game() {
    let g = small_game();
    let (records, active) = initialize_replay(&g).unwrap();
    assert_eq!(active, vec![2, 4]);
    assert_eq!(records.len(), 17);
    match &records[0] {
        Record::GameInfo(head) => {
            assert_eq!(head.host.id, 2);
            assert_eq!(head.host.name, "ann");
        },
        other => panic!("unexpected: {:?}", other),
    }
    let listed: Vec<(u8, String, u32)> = records[1..3]
        .iter()
        .map(|r| match r {
            Record::PlayerInfo { player_info, unknown } => (player_info.id, player_info.name.clone(), *unknown),
            other => panic!("unexpected: {:?}", other),
        })
        .collect();
    assert_eq!(listed, vec![(4, "bob".to_string(), 0), (24, "FLO".to_string(), 0)]);
    assert_eq!(records[3], Record::ProtoBuf(ProtoBufPayload::PlayerSkins { player_id: 2 }));
    assert_eq!(records[4], Record::ProtoBuf(ProtoBufPayload::PlayerSkins { player_id: 4 }));
    assert_eq!(records[5], profile(2, "ann"));
    assert_eq!(records[6], profile(4, "bob"));
    assert_eq!(records[7], profile(24, "FLO"));
    assert_eq!(records[8], Record::ProtoBuf(ProtoBufPayload::PlayerSkins { player_id: 24 }));
    assert_eq!(records[9], Record::ProtoBuf(ProtoBufPayload::PlayerUnknown5 { player_id: 24, unknown_1: 1 }));
    for i in 10..13 {
        assert_eq!(records[i], profile(24, "FLO"));
    }
    assert!(matches!(records[13], Record::SlotInfo(_)));
    assert_eq!(records[14], Record::CountDownStart);
    assert_eq!(records[15], Record::CountDownEnd);
    assert_eq!(records[16], Record::GameStart);
}

#[test]
fn slot_table_of_a_small_game() {
    let g = small_game();
    let (records, _active) = initialize_replay(&g).unwrap();
    let table = match &records[13] {
        Record::SlotInfo(table) => table,
        other => panic!("unexpected: {:?}", other),
    };
    assert_eq!(table.random_seed, 99);
    assert_eq!(table.num_players, 1);
    assert_eq!(table.slots.len(), 24);
    let empty = SlotData {
        player_id: 0,
        download_status: 255,
        slot_status: SlotStatus::Open,
        computer: false,
        team: 0,
        color: 0,
        race: RacePref::Random,
        computer_type: AI::ComputerNormal,
        handicap: 100,
    };
    assert_eq!(table.slots[0], empty);
    assert_eq!(
        table.slots[1],
        SlotData {
            player_id: 2,
            download_status: 100,
            slot_status: SlotStatus::Occupied,
            team: 0,
            color: 1,
            race: RacePref::Orc,
            ..empty
        }
    );
    assert_eq!(
        table.slots[2],
        SlotData {
            download_status: 100,
            slot_status: SlotStatus::Occupied,
            computer: true,
            computer_type: AI::ComputerInsane,
            team: 1,
            color: 2,
            race: RacePref::Orc,
            ..empty
        }
    );
    assert_eq!(table.slots[3].player_id, 4);
    assert_eq!(table.slots[3].team, 24);
    for i in 4..23 {
        assert_eq!(table.slots[i], empty);
    }
    assert_eq!(
        table.slots[23],
        SlotData { player_id: 24, slot_status: SlotStatus::Occupied, race: RacePref::Random, color: 0, team: 24, ..empty }
    );
}

#[test]
fn recorder_can_be_the_first_player() {
    let g = small_game();
    let (head, occupied, first_id, first_name) = regenerate_game_info(&g).unwrap();
    let records =
        build_initial_records(head, vec![], vec![], vec![], true, first_id, first_name, &g, &occupied).unwrap();
    assert_eq!(records.len(), 1 + 2 + 2 + 4);
    assert_eq!(records[1], Record::ProtoBuf(ProtoBufPayload::PlayerSkins { player_id: 2 }));
    assert_eq!(records[2], Record::ProtoBuf(ProtoBufPayload::PlayerUnknown5 { player_id: 2, unknown_1: 1 }));
    assert_eq!(records[3], profile(2, "ann"));
    assert_eq!(records[4], profile(2, "ann"));
    match &records[5] {
        Record::SlotInfo(table) => assert_eq!(table.slots[23].player_id, 0),
        other => panic!("unexpected: {:?}", other),
    }
}

#[test]
fn leaving_is_scored_by_its_reason() {
    for (reason, result) in [
        (LeaveReason::LeaveDisconnect, 0x01),
        (LeaveReason::LeaveLost, 0x07),
        (LeaveReason::LeaveLostBuildings, 0x08),
        (LeaveReason::LeaveWon, 0x09),
        (LeaveReason::LeaveDraw, 0x0D),
        (LeaveReason::LeaveObserver, 0x0D),
        (LeaveReason::Unknown(77), 0x0D),
    ] {
        let (record, dropped) =
            convert_packet_to_record(Packet::PlayerLeft { player_id: 3, reason }, ReplayChatPolicy::NoChats);
        assert_eq!(record, Some(left(3, reason, result)));
        assert_eq!(dropped, Some(3));
    }
}

#[test]
fn chat_is_kept_as_the_policy_says() {
    let seen = chat(vec![1, 24], 2);
    let unseen = chat(vec![1, 3], 2);
    let kept = |c: &ChatToHost| Some(Record::ChatMessage { player_id: 2, message: c.message.clone() });
    let convert = |c: &ChatToHost, policy| convert_packet_to_record(Packet::ChatFromHost(c.clone()), policy);
    assert_eq!(convert(&seen, ReplayChatPolicy::NoChats), (None, None));
    assert_eq!(convert(&seen, ReplayChatPolicy::IncludeChatVisibleToObservers), (kept(&seen), None));
    assert_eq!(convert(&unseen, ReplayChatPolicy::IncludeChatVisibleToObservers), (None, None));
    assert_eq!(convert(&unseen, ReplayChatPolicy::IncludeAllChats), (kept(&unseen), None));
    assert_eq!(
        convert_packet_to_record(Packet::ChatToHost(seen.clone()), ReplayChatPolicy::IncludeAllChats),
        (None, None)
    );
}

#[test]
fn ticks_are_kept_and_other_packets_are_not() {
    let slot = TimeSlot { time_increment_ms: 30, actions: vec![PlayerAction { player_id: 2, data: vec![9] }] };
    assert_eq!(
        convert_packet_to_record(Packet::IncomingAction(slot.clone()), ReplayChatPolicy::NoChats),
        (Some(Record::TimeSlot(slot)), None)
    );
    assert_eq!(convert_packet_to_record(Packet::LeaveAck, ReplayChatPolicy::IncludeAllChats), (None, None));
    assert_eq!(
        convert_packet_to_record(Packet::OutgoingAction { data: vec![1] }, ReplayChatPolicy::IncludeAllChats),
        (None, None)
    );
}

#[test]
fn replay_from_packets_appends_what_the_packets_leave() {
    let g = small_game();
    let slot = TimeSlot { time_increment_ms: 30, actions: vec![] };
    let packets = vec![
        Packet::IncomingAction(slot.clone()),
        Packet::LeaveAck,
        Packet::ChatFromHost(chat(vec![2], 4)),
        Packet::PlayerLeft { player_id: 4, reason: LeaveReason::LeaveLost },
    ];
    let records = generate_replay_from_packets(&g, packets, ReplayChatPolicy::IncludeAllChats).unwrap();
    let opening = initialize_replay(&g).unwrap().0;
    assert_eq!(records[..opening.len()], opening[..]);
    assert_eq!(
        records[opening.len()..],
        [
            Record::TimeSlot(slot),
            Record::ChatMessage { player_id: 4, message: chat(vec![2], 4).message },
            left(4, LeaveReason::LeaveLost, 0x07),
        ]
    );
}

#[test]
fn replay_from_archive_closes_with_the_players_who_stayed() {
    let g = small_game();
    let opening_len = initialize_replay(&g).unwrap().0.len();
    let archive = vec![
        GameRecordData::StartLag,
        GameRecordData::W3GS(Packet::IncomingAction(TimeSlot { time_increment_ms: 30, actions: vec![] })),
        GameRecordData::TickChecksum { tick: 1, checksum: 0xABCD },
        GameRecordData::StopLag,
        GameRecordData::W3GS(Packet::PlayerLeft { player_id: 4, reason: LeaveReason::LeaveWon }),
        GameRecordData::RTTStats,
        GameRecordData::GameEnd,
    ];
    let options = GenerateReplayOptions { game: g, archive, chat_policy: ReplayChatPolicy::NoChats };
    let records = generate_replay(options).unwrap();
    assert_eq!(
        records[opening_len..],
        [
            Record::TimeSlot(TimeSlot { time_increment_ms: 30, actions: vec![] }),
            Record::TimeSlotAck { checksum: 0xABCD },
            left(4, LeaveReason::LeaveWon, 0x09),
            left(2, LeaveReason::LeaveDisconnect, 0x0D),
        ]
    );
}

#[test]
fn replay_from_empty_archive_closes_with_everyone() {
    let options =
        GenerateReplayOptions { game: small_game(), archive: vec![], chat_policy: ReplayChatPolicy::NoChats };
    let records = generate_replay(options).unwrap();
    let n = records.len();
    assert_eq!(
        records[n - 2..],
        [left(2, LeaveReason::LeaveDisconnect, 0x0D), left(4, LeaveReason::LeaveDisconnect, 0x0D)]
    );
}

#[test]
fn observer_needs_a_shard_list() {
    assert_eq!(FloObserver::shard_ids(None), Err(ObserverError::NoShards));
    let shards = vec![Shard { shard_id: "b".to_string() }, Shard { shard_id: "a".to_string() }];
    assert_eq!(FloObserver::shard_ids(Some(shards)), Ok(vec!["b".to_string(), "a".to_string()]));
    assert_eq!(FloObserver::shard_ids(Some(vec![])), Ok(vec![]));
}

#[test]
fn recovered_games_go_to_their_shard() {
    let mut games = vec![
        GameState { id: 1, shard_id: "a".to_string() },
        GameState { id: 2, shard_id: "b".to_string() },
        GameState { id: 3, shard_id: "a".to_string() },
    ];
    let mine = FloObserver::take_recovered_games(&"a".to_string(), &mut games);
    assert_eq!(mine.iter().map(|g| g.id).collect::<Vec<_>>(), vec![1, 3]);
    assert_eq!(games.iter().map(|g| g.id).collect::<Vec<_>>(), vec![2]);
    let none = FloObserver::take_recovered_games(&"c".to_string(), &mut games);
    assert!(none.is_empty());
    assert_eq!(games.len(), 1);
}
