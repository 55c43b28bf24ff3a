use flo_core::broadcast::{AllowList, BroadcastTarget, DenyList, Everyone};
use flo_core::clock::{ActionTickStream, GAME_DEFAULT_STEP_MS};
use flo_core::dispatch::{muted_notice, ActionMsg, DispatchResult, Dispatcher, Message, State, TickWorker};
use flo_core::players::{Error, PlayerDispatchInfo, PlayerInfo, PlayerSlot, Shared};
use flo_core::sink::PlayerSendError;
use flo_core::slot::index_to_player_id;
use flo_core::status::{GameEvent, PlayerBanType, SlotClientStatus, SlotClientStatusUpdateSource};
use flo_core::w3gs::{
    ChatMessage, ChatToHost, Frame, LeaveReason, MessageScope, Packet, PacketTypeId, PlayerAction, TimeSlot,
};
use tokio::sync::mpsc::error::TryRecvError;
use tokio::sync::mpsc::{channel, Receiver};
use tokio::sync::oneshot;

fn slot(id: u32, player_id: i32, bans: Vec<PlayerBanType>) -> PlayerSlot {
    PlayerSlot { id, player: PlayerInfo { player_id, ban_list: bans } }
}

fn three_slots() -> Vec<PlayerSlot> {
    vec![slot(0, 1, vec![]), slot(1, 2, vec![PlayerBanType::Chat]), slot(2, 3, vec![])]
}

fn connect(state: &mut State, shared: &mut Shared, player_id: i32, capacity: usize) -> Receiver<Frame> {
    let (tx, rx) = channel::<Frame>(capacity);
    let slot_player_id = player_id as u8;
    let r = state.dispatch(shared, Message::PlayerConnect { player_id, slot_player_id, tx });
    assert_eq!(
        r,
        Ok(DispatchResult::Event(GameEvent::PlayerStatusChange(
            player_id,
            SlotClientStatus::Connected,
            SlotClientStatusUpdateSource::Node
        )))
    );
    rx
}

fn connected_game() -> (State, Shared, Vec<Receiver<Frame>>) {
    let slots = three_slots();
    let mut state = State::new(7, &slots);
    let mut shared = Shared::new(7, &slots);
    let mut rxs = Vec::new();
    for id in 1..=3 {
        rxs.push(connect(&mut state, &mut shared, id, 64));
    }
    (state, shared, rxs)
}

fn drain(rx: &mut Receiver<Frame>) -> Vec<Frame> {
    let mut out = Vec::new();
    while let Ok(frame) = rx.try_recv() {
        out.push(frame);
    }
    out
}

fn in_game_chat(from: u8, to: Vec<u8>, text: &str) -> ChatToHost {
    ChatToHost {
        to_players: to,
        from_player: from,
        message: ChatMessage::Scoped { scope: MessageScope::All, message: text.to_string() },
    }
}

fn incoming(player_id: i32, packet: Packet) -> Message {
    Message::Incoming { player_id, slot_player_id: player_id as u8, frame: Frame::W3gs(packet) }
}

#[test]
fn index_to_player_id_is_index_plus_one() {
    assert_eq!(index_to_player_id(0), 1);
    assert_eq!(index_to_player_id(23), 24);
    assert_eq!(index_to_player_id(254), 255);
}

#[test]
fn index_to_player_id_wraps_at_a_byte() {
    assert_eq!(index_to_player_id(255), 0);
    assert_eq!(index_to_player_id(256), 1);
}

#[test]
fn new_players_have_no_queue() {
    let slots = three_slots();
    let mut shared = Shared::new(7, &slots);
    for id in 1..=3 {
        let info = shared.get_player(id).unwrap();
        assert!(!info.connected());
        assert_eq!(info.slot_player_id(), id as u8);
    }
    assert_eq!(shared.sent_ticks(), 0);
}

#[test]
fn unknown_player_is_not_found() {
    let slots = three_slots();
    let mut shared = Shared::new(7, &slots);
    assert!(matches!(shared.get_player(9), Err(Error::PlayerNotFoundInGame)));
}

#[test]
fn later_slot_wins_a_shared_player_id() {
    let slots = vec![slot(0, 5, vec![]), slot(4, 5, vec![])];
    let mut shared = Shared::new(1, &slots);
    assert_eq!(shared.get_player(5).unwrap().slot_player_id(), 5);
}

#[test]
fn send_without_queue_hands_the_frame_back() {
    let mut info = PlayerDispatchInfo::new(&slot(0, 1, vec![]));
    match info.send(Frame::W3gs(Packet::LeaveAck)) {
        Err(PlayerSendError::NotConnected(frame)) => assert_eq!(frame, Frame::W3gs(Packet::LeaveAck)),
        other => panic!("unexpected: {:?}", other),
    }
}

#[test]
fn send_puts_the_frame_on_the_queue() {
    let mut info = PlayerDispatchInfo::new(&slot(0, 1, vec![]));
    let (tx, mut rx) = channel::<Frame>(4);
    assert!(info.connect(tx).is_none());
    assert!(info.connected());
    assert!(info.send_w3gs(Packet::PlayerLoaded { player_id: 9 }).is_ok());
    assert!(info.send(Frame::Other { type_id: 3, payload: vec![3] }).is_ok());
    assert_eq!(
        drain(&mut rx),
        vec![Frame::W3gs(Packet::PlayerLoaded { player_id: 9 }), Frame::Other { type_id: 3, payload: vec![3] }]
    );
}

#[test]
fn send_to_full_queue_fails_and_keeps_the_queue() {
    let mut info = PlayerDispatchInfo::new(&slot(0, 1, vec![]));
    let (tx, mut rx) = channel::<Frame>(1);
    info.connect(tx);
    assert!(info.send(Frame::Other { type_id: 1, payload: vec![1] }).is_ok());
    assert!(matches!(info.send(Frame::Other { type_id: 2, payload: vec![2] }), Err(PlayerSendError::ChannelFull)));
    assert!(info.connected());
    assert_eq!(drain(&mut rx), vec![Frame::Other { type_id: 1, payload: vec![1] }]);
}

#[test]
fn send_to_closed_queue_hands_the_frame_back() {
    let mut info = PlayerDispatchInfo::new(&slot(0, 1, vec![]));
    let (tx, rx) = channel::<Frame>(1);
    info.connect(tx);
    drop(rx);
    match info.send(Frame::Other { type_id: 2, payload: vec![2] }) {
        Err(PlayerSendError::Closed(frame)) => assert_eq!(frame, Frame::Other { type_id: 2, payload: vec![2] }),
        other => panic!("unexpected: {:?}", other),
    }
}

#[test]
fn disconnect_takes_the_queue() {
    let mut info = PlayerDispatchInfo::new(&slot(0, 1, vec![]));
    assert!(info.disconnect().is_none());
    let (tx, _rx) = channel::<Frame>(1);
    info.connect(tx);
    assert!(info.disconnect().is_some());
    assert!(!info.connected());
}

#[test]
fn broadcast_targets() {
    assert!(Everyone.contains(5));
    assert!(AllowList(&[1, 2]).contains(2));
    assert!(!AllowList(&[1, 2]).contains(3));
    assert!(!DenyList(&[1, 2]).contains(2));
    assert!(DenyList(&[1, 2]).contains(3));
    assert!(!AllowList(&[]).contains(0));
    assert!(DenyList(&[]).contains(0));
}

#[test]
fn broadcast_reaches_the_chosen_players_only() {
    let (_state, mut shared, mut rxs) = connected_game();
    assert_eq!(shared.broadcast(Packet::LeaveAck, AllowList(&[1, 3])), Ok(()));
    assert_eq!(drain(&mut rxs[0]), vec![Frame::W3gs(Packet::LeaveAck)]);
    assert_eq!(drain(&mut rxs[1]), vec![]);
    assert_eq!(drain(&mut rxs[2]), vec![Frame::W3gs(Packet::LeaveAck)]);
}

#[test]
fn broadcast_drops_a_player_whose_queue_is_closed() {
    let (_state, mut shared, mut rxs) = connected_game();
    let gone = rxs.remove(1);
    drop(gone);
    assert_eq!(shared.broadcast(Packet::LeaveAck, Everyone), Ok(()));
    assert!(shared.get_player(1).unwrap().connected());
    assert!(!shared.get_player(2).unwrap().connected());
    assert!(shared.get_player(3).unwrap().connected());
    assert_eq!(drain(&mut rxs[0]), vec![Frame::W3gs(Packet::LeaveAck)]);
}

#[test]
fn broadcast_drops_a_player_whose_queue_is_full() {
    let slots = three_slots();
    let mut state = State::new(7, &slots);
    let mut shared = Shared::new(7, &slots);
    let mut slow = connect(&mut state, &mut shared, 1, 1);
    let mut fast = connect(&mut state, &mut shared, 3, 8);
    shared.broadcast(Packet::Other { type_id: 1, payload: vec![1, 0] }, Everyone).unwrap();
    shared.broadcast(Packet::Other { type_id: 2, payload: vec![2, 0] }, Everyone).unwrap();
    assert!(!shared.get_player(1).unwrap().connected());
    assert!(shared.get_player(3).unwrap().connected());
    assert_eq!(drain(&mut slow), vec![Frame::W3gs(Packet::Other { type_id: 1, payload: vec![1, 0] })]);
    assert_eq!(
        drain(&mut fast),
        vec![Frame::W3gs(Packet::Other { type_id: 1, payload: vec![1, 0] }), Frame::W3gs(Packet::Other { type_id: 2, payload: vec![2, 0] })]
    );
}

#[test]
fn broadcast_message_leaves_a_full_queue_in_place() {
    let slots = three_slots();
    let mut state = State::new(7, &slots);
    let mut shared = Shared::new(7, &slots);
    let mut slow = connect(&mut state, &mut shared, 1, 1);
    shared.broadcast_message("one");
    shared.broadcast_message("two");
    assert!(shared.get_player(1).unwrap().connected());
    assert_eq!(drain(&mut slow).len(), 1);
}

#[test]
fn mute_broadcast() {
    let slots = three_slots();
    let (start_tx, mut start_rx) = oneshot::channel::<()>();
    let (mut dispatcher, workers) = Dispatcher::new(7, &slots, start_tx);
    let mut state = workers.state;
    let mut shared = workers.shared;
    assert_eq!(workers.start_messages, vec!["One or more players in this game have been muted.".to_string()]);
    let mut rxs = Vec::new();
    for id in 1..=3 {
        rxs.push(connect(&mut state, &mut shared, id, 64));
    }
    dispatcher.start();
    assert_eq!(start_rx.try_recv(), Ok(()));
    let _worker = TickWorker::start(&mut shared, &workers.start_messages);
    for (i, rx) in rxs.iter_mut().enumerate() {
        let me = (i + 1) as u8;
        assert_eq!(
            drain(rx),
            vec![Frame::W3gs(Packet::ChatFromHost(in_game_chat(
                me,
                vec![me],
                "One or more players in this game have been muted."
            )))]
        );
    }
    let r = state.dispatch(&mut shared, incoming(2, Packet::ChatToHost(in_game_chat(2, vec![1, 3], "hi"))));
    assert_eq!(r, Ok(DispatchResult::Continue));
    for rx in rxs.iter_mut() {
        assert_eq!(drain(rx), vec![]);
    }
}

#[test]
fn no_start_message_without_a_muted_player() {
    let slots = vec![slot(0, 1, vec![]), slot(1, 2, vec![])];
    let (start_tx, _start_rx) = oneshot::channel::<()>();
    let (_dispatcher, workers) = Dispatcher::new(7, &slots, start_tx);
    assert!(workers.start_messages.is_empty());
}

#[test]
fn muted_notice_text() {
    assert_eq!(muted_notice(), "One or more players in this game have been muted.");
}

#[test]
fn start_is_idempotent() {
    let slots = three_slots();
    let (start_tx, mut start_rx) = oneshot::channel::<()>();
    let (mut dispatcher, _workers) = Dispatcher::new(7, &slots, start_tx);
    assert!(!dispatcher.is_started());
    assert_eq!(start_rx.try_recv(), Err(oneshot::error::TryRecvError::Empty));
    dispatcher.start();
    assert!(dispatcher.is_started());
    assert_eq!(start_rx.try_recv(), Ok(()));
    dispatcher.start();
    assert!(dispatcher.is_started());
}

#[test]
fn lobby_chat_of_a_muted_player_goes_through() {
    let (mut state, mut shared, mut rxs) = connected_game();
    let chat = ChatToHost { to_players: vec![1, 2, 3], from_player: 2, message: ChatMessage::Chat("gl".to_string()) };
    let r = state.dispatch(&mut shared, incoming(2, Packet::ChatToHost(chat.clone())));
    assert_eq!(r, Ok(DispatchResult::Continue));
    assert_eq!(drain(&mut rxs[0]), vec![Frame::W3gs(Packet::ChatFromHost(chat.clone()))]);
    assert_eq!(drain(&mut rxs[1]), vec![]);
    assert_eq!(drain(&mut rxs[2]), vec![Frame::W3gs(Packet::ChatFromHost(chat))]);
}

#[test]
fn chat_goes_to_the_named_slots_and_never_back() {
    let (mut state, mut shared, mut rxs) = connected_game();
    let chat = in_game_chat(1, vec![1, 3, 9], "push");
    let r = state.dispatch_chat(&mut shared, 1, chat.clone());
    assert_eq!(r, Ok(()));
    assert_eq!(drain(&mut rxs[0]), vec![]);
    assert_eq!(drain(&mut rxs[1]), vec![]);
    assert_eq!(drain(&mut rxs[2]), vec![Frame::W3gs(Packet::ChatFromHost(chat))]);
}

#[test]
fn slot_ids_lead_to_player_ids() {
    let slots = vec![slot(0, 101, vec![]), slot(5, 202, vec![]), slot(23, 303, vec![])];
    let mut state = State::new(1, &slots);
    let mut shared = Shared::new(1, &slots);
    let (tx1, mut rx1) = channel::<Frame>(8);
    let (tx2, mut rx2) = channel::<Frame>(8);
    let (tx3, mut rx3) = channel::<Frame>(8);
    shared.get_player(101).unwrap().connect(tx1);
    shared.get_player(202).unwrap().connect(tx2);
    shared.get_player(303).unwrap().connect(tx3);
    assert_eq!(shared.get_player(101).unwrap().slot_player_id(), 1);
    assert_eq!(shared.get_player(202).unwrap().slot_player_id(), 6);
    assert_eq!(shared.get_player(303).unwrap().slot_player_id(), 24);
    let chat = in_game_chat(1, vec![6, 24], "x");
    state.dispatch_chat(&mut shared, 101, chat.clone()).unwrap();
    assert_eq!(drain(&mut rx1), vec![]);
    assert_eq!(drain(&mut rx2), vec![Frame::W3gs(Packet::ChatFromHost(chat.clone()))]);
    assert_eq!(drain(&mut rx3), vec![Frame::W3gs(Packet::ChatFromHost(chat))]);
}

#[test]
fn leave_broadcast() {
    let (mut state, mut shared, mut rxs) = connected_game();
    let r = state.dispatch(&mut shared, incoming(2, Packet::LeaveReq(LeaveReason::LeaveDisconnect)));
    assert_eq!(
        r,
        Ok(DispatchResult::Event(GameEvent::PlayerStatusChange(
            2,
            SlotClientStatus::Left,
            SlotClientStatusUpdateSource::Node
        )))
    );
    let left = Frame::W3gs(Packet::PlayerLeft { player_id: 2, reason: LeaveReason::LeaveDisconnect });
    assert_eq!(drain(&mut rxs[0]), vec![left.clone()]);
    assert_eq!(drain(&mut rxs[1]), vec![Frame::W3gs(Packet::LeaveAck)]);
    assert_eq!(drain(&mut rxs[2]), vec![left]);
    assert!(!shared.get_player(2).unwrap().connected());
    assert_eq!(rxs[1].try_recv(), Err(TryRecvError::Closed));
}

#[test]
fn leave_of_an_unknown_player_fails() {
    let (mut state, mut shared, mut rxs) = connected_game();
    let r = state.dispatch(&mut shared, incoming(9, Packet::LeaveReq(LeaveReason::LeaveLost)));
    assert_eq!(r, Err(Error::PlayerNotFoundInGame));
    for rx in rxs.iter_mut() {
        assert_eq!(drain(rx), vec![]);
    }
}

#[test]
fn connect_of_an_unknown_player_fails() {
    let slots = three_slots();
    let mut state = State::new(7, &slots);
    let mut shared = Shared::new(7, &slots);
    let (tx, _rx) = channel::<Frame>(1);
    let r = state.dispatch(&mut shared, Message::PlayerConnect { player_id: 9, slot_player_id: 9, tx });
    assert_eq!(r, Err(Error::PlayerNotFoundInGame));
}

#[test]
fn reconnect_replaces_the_queue() {
    let (mut state, mut shared, mut rxs) = connected_game();
    let mut fresh = connect(&mut state, &mut shared, 1, 8);
    assert_eq!(rxs[0].try_recv(), Err(TryRecvError::Closed));
    shared.broadcast(Packet::LeaveAck, Everyone).unwrap();
    assert_eq!(drain(&mut fresh), vec![Frame::W3gs(Packet::LeaveAck)]);
}

#[test]
fn disconnect_is_announced_then_carried_out() {
    let (mut state, mut shared, mut rxs) = connected_game();
    let r = state.dispatch(&mut shared, Message::PlayerDisconnect { player_id: 3, slot_player_id: 3 });
    assert_eq!(
        r,
        Ok(DispatchResult::Disconnecting {
            event: GameEvent::PlayerStatusChange(
                3,
                SlotClientStatus::Disconnected,
                SlotClientStatusUpdateSource::Node
            ),
            player_id: 3,
            slot_player_id: 3,
        })
    );
    assert!(shared.get_player(3).unwrap().connected());
    assert_eq!(state.player_disconnected(&mut shared, 3, 3), Ok(DispatchResult::Continue));
    assert!(!shared.get_player(3).unwrap().connected());
    let left = Frame::W3gs(Packet::PlayerLeft { player_id: 3, reason: LeaveReason::LeaveDisconnect });
    assert_eq!(drain(&mut rxs[0]), vec![left.clone()]);
    assert_eq!(drain(&mut rxs[1]), vec![left]);
    assert_eq!(drain(&mut rxs[2]), vec![]);
}

#[test]
fn broadcast_after_disconnect_omits_the_player() {
    let (mut state, mut shared, mut rxs) = connected_game();
    state.player_disconnected(&mut shared, 3, 3).unwrap();
    drain(&mut rxs[0]);
    drain(&mut rxs[1]);
    shared.broadcast(Packet::LeaveAck, Everyone).unwrap();
    shared.broadcast_message("hello");
    assert_eq!(drain(&mut rxs[0]).len(), 2);
    assert_eq!(drain(&mut rxs[1]).len(), 2);
    assert_eq!(drain(&mut rxs[2]), vec![]);
    assert!(!shared.get_player(3).unwrap().connected());
}

#[test]
fn disconnect_without_queue_tells_nobody() {
    let (mut state, mut shared, mut rxs) = connected_game();
    state.player_disconnected(&mut shared, 3, 3).unwrap();
    drain(&mut rxs[0]);
    drain(&mut rxs[1]);
    assert_eq!(state.player_disconnected(&mut shared, 3, 3), Ok(DispatchResult::Continue));
    assert_eq!(drain(&mut rxs[0]), vec![]);
    assert_eq!(drain(&mut rxs[1]), vec![]);
}

#[test]
fn disconnect_of_an_unknown_player_fails() {
    let (mut state, mut shared, _rxs) = connected_game();
    assert_eq!(state.player_disconnected(&mut shared, 9, 9), Err(Error::PlayerNotFoundInGame));
}

#[test]
fn keep_alive_counts_one_tick() {
    let (mut state, mut shared, _rxs) = connected_game();
    assert_eq!(state.acked_ticks(1), Some(0));
    assert_eq!(state.dispatch(&mut shared, incoming(1, Packet::OutgoingKeepAlive { unknown: 0, checksum: 7 })), Ok(DispatchResult::Continue));
    assert_eq!(state.dispatch(&mut shared, incoming(1, Packet::OutgoingKeepAlive { unknown: 0, checksum: 7 })), Ok(DispatchResult::Continue));
    assert_eq!(state.acked_ticks(1), Some(2));
    assert_eq!(state.acked_ticks(2), Some(0));
    assert_eq!(state.acked_ticks(9), None);
    state.ack_tick(9);
    assert_eq!(state.acked_ticks(9), None);
}

#[test]
fn acks_stay_within_sent_ticks_when_answering_ticks() {
    let (mut state, mut shared, _rxs) = connected_game();
    let mut worker = TickWorker::start(&mut shared, &vec![]);
    for _ in 0..3 {
        worker.tick(&mut shared).unwrap();
        state.ack_tick(1);
        assert!(state.acked_ticks(1).unwrap() as u32 <= shared.sent_ticks());
    }
    assert_eq!(shared.sent_ticks(), 3);
    assert_eq!(state.acked_ticks(1), Some(3));
}

#[test]
fn action_is_handed_back_under_the_slot_id() {
    let (mut state, mut shared, mut rxs) = connected_game();
    let r = state.dispatch(
        &mut shared,
        Message::Incoming { player_id: 300, slot_player_id: 4, frame: Frame::W3gs(Packet::OutgoingAction { data: vec![1, 2] }) },
    );
    assert_eq!(r, Ok(DispatchResult::Action(PlayerAction { player_id: 4, data: vec![1, 2] })));
    for rx in rxs.iter_mut() {
        assert_eq!(drain(rx), vec![]);
    }
}

#[test]
fn status_report_becomes_an_event() {
    let (mut state, mut shared, _rxs) = connected_game();
    let r = state.dispatch(
        &mut shared,
        Message::Incoming { player_id: 2, slot_player_id: 2, frame: Frame::SlotClientStatusRequest(SlotClientStatus::Loaded) },
    );
    assert_eq!(
        r,
        Ok(DispatchResult::Event(GameEvent::PlayerStatusChange(
            2,
            SlotClientStatus::Loaded,
            SlotClientStatusUpdateSource::Client
        )))
    );
    assert_eq!(state.dispatch_incoming_flo(2, Frame::Other { type_id: 9, payload: vec![9] }), Ok(DispatchResult::Continue));
}

#[test]
fn other_packets_are_passed_over() {
    let (mut state, mut shared, mut rxs) = connected_game();
    let r = state.dispatch_incoming_w3gs(&mut shared, 1, 1, Packet::GameLoadedSelf);
    assert_eq!(r, Ok(DispatchResult::Continue));
    let r = state.dispatch_incoming_w3gs(&mut shared, 1, 1, Packet::OutgoingAction { data: vec![] });
    assert_eq!(r, Ok(DispatchResult::Continue));
    for rx in rxs.iter_mut() {
        assert_eq!(drain(rx), vec![]);
    }
}

#[test]
fn tick_batching() {
    let (_state, mut shared, mut rxs) = connected_game();
    let mut worker = TickWorker::start(&mut shared, &vec![]);
    for (player_id, byte) in [(1u8, 10u8), (3, 30), (1, 11)] {
        worker.accept(ActionMsg::PlayerAction(PlayerAction { player_id, data: vec![byte] }));
    }
    assert_eq!(worker.tick(&mut shared), Ok(()));
    let expected = Frame::W3gs(Packet::IncomingAction(TimeSlot {
        time_increment_ms: GAME_DEFAULT_STEP_MS,
        actions: vec![
            PlayerAction { player_id: 1, data: vec![10] },
            PlayerAction { player_id: 3, data: vec![30] },
            PlayerAction { player_id: 1, data: vec![11] },
        ],
    }));
    for rx in rxs.iter_mut() {
        assert_eq!(drain(rx), vec![expected.clone()]);
    }
    assert_eq!(shared.sent_ticks(), 1);
    assert_eq!(worker.tick(&mut shared), Ok(()));
    let empty = Frame::W3gs(Packet::IncomingAction(TimeSlot { time_increment_ms: 30, actions: vec![] }));
    for rx in rxs.iter_mut() {
        assert_eq!(drain(rx), vec![empty.clone()]);
    }
    assert_eq!(shared.sent_ticks(), 2);
}

#[test]
fn tick_stream_keeps_arrival_order_and_starts_over() {
    let mut stream = ActionTickStream::new(50);
    stream.add_player_action(PlayerAction { player_id: 2, data: vec![1] });
    stream.add_player_action(PlayerAction { player_id: 1, data: vec![2] });
    let tick = stream.next_tick();
    assert_eq!(tick.time_increment_ms, 50);
    assert_eq!(
        tick.actions,
        vec![PlayerAction { player_id: 2, data: vec![1] }, PlayerAction { player_id: 1, data: vec![2] }]
    );
    let tick = stream.next_tick();
    assert_eq!(tick.time_increment_ms, 50);
    assert!(tick.actions.is_empty());
}

#[test]
fn packet_type_ids() {
    assert_eq!(Packet::LeaveAck.type_id(), PacketTypeId::LeaveAck);
    assert_eq!(Packet::OutgoingAction { data: vec![] }.type_id(), PacketTypeId::OutgoingAction);
    assert_eq!(Packet::Other { type_id: 66, payload: vec![66, 0] }.type_id(), PacketTypeId::Other(66));
    assert!(in_game_chat(1, vec![], "x").message.is_in_game_chat());
    assert!(!ChatMessage::Chat("x".to_string()).is_in_game_chat());
    assert!(!ChatMessage::TeamChange(1).is_in_game_chat());
}

#[test]
fn private_line_is_addressed_to_its_reader() {
    let chat = ChatToHost::private_to_self(4, "note");
    assert_eq!(chat, in_game_chat(4, vec![4], "note"));
}

#[test]
fn frames_clone_deeply() {
    let frame = Frame::W3gs(Packet::IncomingAction(TimeSlot {
        time_increment_ms: 30,
        actions: vec![PlayerAction { player_id: 1, data: vec![1, 2, 3] }],
    }));
    assert_eq!(frame.clone(), frame);
    let chat = Frame::W3gs(Packet::ChatToHost(in_game_chat(1, vec![2, 3], "t")));
    assert_eq!(chat.clone(), chat);
}
