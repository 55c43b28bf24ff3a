use flo_core::idmap::IdMap;
use flo_core::load::{
    get_player_loaded_packet, Error, LanGame, LanGameInfo, LanPlayer, LanSlot, LanSlotInfo, LanSlotPlayerInfo,
    LoadAction, LoadEvent, LoadNext, LoadScreen, PreGameCollector, PreGameEvent,
};
use flo_core::status::{NodeGameStatus, SlotClientStatus};
use flo_core::w3gs::{LeaveReason, Packet};

fn seat(slot_player_id: u8, player_id: i32) -> LanSlotPlayerInfo {
    LanSlotPlayerInfo { slot_player_id, player_id, name: format!("p{}", player_id) }
}

fn lan_slot(player_id: Option<i32>, client_status: SlotClientStatus) -> LanSlot {
    LanSlot { player: player_id.map(|id| LanPlayer { id, name: format!("p{}", id) }), client_status }
}

fn info(slots: Vec<LanSlot>) -> LanGameInfo {
    LanGameInfo {
        game: LanGame { game_id: 9, player_id: 1, slots },
        slot_info: LanSlotInfo { slot_player_id: 1, player_infos: vec![seat(1, 1), seat(2, 2), seat(3, 3)] },
    }
}

fn statuses(entries: &[(i32, SlotClientStatus)]) -> IdMap<SlotClientStatus> {
    let mut map = IdMap::new();
    for (id, status) in entries {
        map.insert(*id, *status);
    }
    map
}

fn loaded(player_id: i32) -> LoadEvent {
    LoadEvent::PreGame(Some(PreGameEvent::PlayerStatusChange { player_id, status: SlotClientStatus::Loaded }))
}

#[test]
fn happy_path_load() {
    let info = info(vec![]);
    let initial = statuses(&[(3, SlotClientStatus::Loaded), (2, SlotClientStatus::Loaded)]);
    let (mut screen, first) = LoadScreen::enter(&info, &initial);
    assert_eq!(first.next, LoadNext::Continue);
    assert_eq!(
        first.actions,
        vec![
            LoadAction::Report(SlotClientStatus::Loading),
            LoadAction::SendAll(vec![Packet::PlayerLoaded { player_id: 2 }, Packet::PlayerLoaded { player_id: 3 }]),
        ]
    );
    let step = screen.step(&info, LoadEvent::Client(Some(Packet::GameLoadedSelf)));
    assert_eq!(step.next, LoadNext::Continue);
    assert_eq!(
        step.actions,
        vec![LoadAction::Send(Packet::PlayerLoaded { player_id: 1 }), LoadAction::Report(SlotClientStatus::Loaded)]
    );
}

#[test]
fn node_running_before_client_loads() {
    let info = info(vec![]);
    let initial = statuses(&[]);
    let (mut screen, first) = LoadScreen::enter(&info, &initial);
    assert_eq!(first.actions, vec![LoadAction::Report(SlotClientStatus::Loading)]);
    assert_eq!(first.next, LoadNext::Continue);
    let step = screen.step(&info, LoadEvent::NodeStatus(Some(Some(NodeGameStatus::Running))));
    assert_eq!(step.next, LoadNext::Running);
    assert!(step.actions.is_empty());
}

#[test]
fn enter_skips_the_local_player_and_the_unloaded() {
    let info = info(vec![]);
    let initial = statuses(&[
        (1, SlotClientStatus::Loaded),
        (2, SlotClientStatus::Loading),
        (3, SlotClientStatus::Loaded),
        (4, SlotClientStatus::Left),
    ]);
    let (_screen, first) = LoadScreen::enter(&info, &initial);
    assert_eq!(
        first.actions,
        vec![
            LoadAction::Report(SlotClientStatus::Loading),
            LoadAction::SendAll(vec![Packet::PlayerLoaded { player_id: 3 }]),
        ]
    );
}

#[test]
fn enter_fails_for_a_loaded_player_without_seat() {
    let info = info(vec![]);
    let initial = statuses(&[(2, SlotClientStatus::Loaded), (8, SlotClientStatus::Loaded)]);
    let (_screen, first) = LoadScreen::enter(&info, &initial);
    assert_eq!(first.next, LoadNext::Failed(Error::SlotNotResolved));
    assert_eq!(first.actions, vec![LoadAction::Report(SlotClientStatus::Loading)]);
}

#[test]
fn remote_player_is_announced_once() {
    let info = info(vec![]);
    let initial = statuses(&[(2, SlotClientStatus::Loaded)]);
    let (mut screen, _first) = LoadScreen::enter(&info, &initial);
    let again = screen.step(&info, loaded(2));
    assert!(again.actions.is_empty());
    assert_eq!(again.next, LoadNext::Continue);
    let third = screen.step(&info, loaded(3));
    assert_eq!(third.actions, vec![LoadAction::Send(Packet::PlayerLoaded { player_id: 3 })]);
    let repeat = screen.step(&info, loaded(3));
    assert!(repeat.actions.is_empty());
    assert_eq!(repeat.next, LoadNext::Continue);
}

#[test]
fn loaded_status_of_the_local_player_is_dropped() {
    let info = info(vec![]);
    let (mut screen, _first) = LoadScreen::enter(&info, &statuses(&[]));
    let step = screen.step(&info, loaded(1));
    assert!(step.actions.is_empty());
    assert_eq!(step.next, LoadNext::Continue);
}

#[test]
fn other_statuses_are_passed_over() {
    let info = info(vec![]);
    let (mut screen, _first) = LoadScreen::enter(&info, &statuses(&[]));
    for status in [
        SlotClientStatus::Pending,
        SlotClientStatus::Connected,
        SlotClientStatus::Joined,
        SlotClientStatus::Loading,
        SlotClientStatus::Disconnected,
        SlotClientStatus::Left,
    ] {
        let step = screen.step(&info, LoadEvent::PreGame(Some(PreGameEvent::PlayerStatusChange { player_id: 2, status })));
        assert!(step.actions.is_empty());
        assert_eq!(step.next, LoadNext::Continue);
    }
    let step = screen.step(&info, loaded(2));
    assert_eq!(step.actions, vec![LoadAction::Send(Packet::PlayerLoaded { player_id: 2 })]);
}

#[test]
fn loaded_player_without_seat_fails_the_phase() {
    let info = info(vec![]);
    let (mut screen, _first) = LoadScreen::enter(&info, &statuses(&[]));
    let step = screen.step(&info, loaded(8));
    assert!(step.actions.is_empty());
    assert_eq!(step.next, LoadNext::Failed(Error::SlotNotResolved));
}

#[test]
fn leave_during_load_reopens_the_lobby() {
    let info = info(vec![]);
    let (mut screen, _first) = LoadScreen::enter(&info, &statuses(&[]));
    let step = screen.step(&info, LoadEvent::Client(Some(Packet::LeaveReq(LeaveReason::LeaveLost))));
    assert_eq!(step.next, LoadNext::Left);
    assert_eq!(
        step.actions,
        vec![
            LoadAction::ReportBestEffort(SlotClientStatus::Connected),
            LoadAction::Send(Packet::LeaveAck),
            LoadAction::Flush,
        ]
    );
}

#[test]
fn closed_streams_end_the_phase() {
    let info = info(vec![]);
    let (mut screen, _first) = LoadScreen::enter(&info, &statuses(&[]));
    assert_eq!(screen.step(&info, LoadEvent::Client(None)).next, LoadNext::Failed(Error::StreamClosed));
    assert_eq!(screen.step(&info, LoadEvent::PreGame(None)).next, LoadNext::EventsClosed);
    assert_eq!(screen.step(&info, LoadEvent::NodeStatus(None)).next, LoadNext::Failed(Error::TaskCancelled));
}

#[test]
fn node_statuses_during_load() {
    let info = info(vec![]);
    let (mut screen, _first) = LoadScreen::enter(&info, &statuses(&[]));
    assert_eq!(screen.step(&info, LoadEvent::NodeStatus(Some(None))).next, LoadNext::Continue);
    assert_eq!(
        screen.step(&info, LoadEvent::NodeStatus(Some(Some(NodeGameStatus::Loading)))).next,
        LoadNext::Continue
    );
    for status in [NodeGameStatus::Created, NodeGameStatus::Waiting, NodeGameStatus::Ended] {
        assert_eq!(
            screen.step(&info, LoadEvent::NodeStatus(Some(Some(status)))).next,
            LoadNext::Failed(Error::UnexpectedNodeGameStatus(status))
        );
    }
}

#[test]
fn unexpected_client_packets_are_passed_over() {
    let info = info(vec![]);
    let (mut screen, _first) = LoadScreen::enter(&info, &statuses(&[]));
    let step = screen.step(&info, LoadEvent::Client(Some(Packet::OutgoingKeepAlive { unknown: 0, checksum: 7 })));
    assert!(step.actions.is_empty());
    assert_eq!(step.next, LoadNext::Continue);
}

#[test]
fn loaded_packet_names_the_first_seat() {
    let mut info = info(vec![]);
    info.slot_info.player_infos.push(seat(7, 2));
    assert_eq!(get_player_loaded_packet(&info, 2), Ok(Packet::PlayerLoaded { player_id: 2 }));
    assert_eq!(get_player_loaded_packet(&info, 3), Ok(Packet::PlayerLoaded { player_id: 3 }));
    assert_eq!(get_player_loaded_packet(&info, 4), Err(Error::SlotNotResolved));
}

#[test]
fn collector_keeps_the_latest_status() {
    let info = info(vec![
        lan_slot(Some(1), SlotClientStatus::Connected),
        lan_slot(None, SlotClientStatus::Pending),
        lan_slot(Some(2), SlotClientStatus::Joined),
    ]);
    let mut collector = PreGameCollector::new(&info);
    collector.record(PreGameEvent::PlayerStatusChange { player_id: 2, status: SlotClientStatus::Loading });
    collector.record(PreGameEvent::PlayerStatusChange { player_id: 2, status: SlotClientStatus::Loaded });
    collector.record(PreGameEvent::PlayerStatusChange { player_id: 5, status: SlotClientStatus::Left });
    let map = collector.finish();
    assert_eq!(map.len(), 3);
    assert_eq!(map.get(1), Some(&SlotClientStatus::Connected));
    assert_eq!(map.get(2), Some(&SlotClientStatus::Loaded));
    assert_eq!(map.get(5), Some(&SlotClientStatus::Left));
    assert_eq!(map.get(3), None);
}

#[test]
fn id_map_walks_in_ascending_order() {
    let mut map: IdMap<u8> = IdMap::new();
    assert_eq!(map.insert(5, 50), None);
    assert_eq!(map.insert(-2, 20), None);
    assert_eq!(map.insert(3, 30), None);
    assert_eq!(map.insert(5, 51), Some(50));
    assert_eq!(map.len(), 3);
    assert_eq!((map.key_at(0), *map.value_at(0)), (-2, 20));
    assert_eq!((map.key_at(1), *map.value_at(1)), (3, 30));
    assert_eq!((map.key_at(2), *map.value_at(2)), (5, 51));
    assert_eq!(map.position(3), Some(1));
    assert_eq!(map.position(4), None);
    *map.value_mut(1) = 31;
    assert_eq!(map.get(3), Some(&31));
}
