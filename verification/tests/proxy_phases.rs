use flo_core::load::{Error, LoadNext};
use flo_core::proxy::{
    lobby_outcome, relay, Accepted, LanEvent, LobbyAction, LobbyEvent, Phase, RelayAction, RelayEvent, Stage,
    Supervisor, SupervisorAction, SupervisorEvent,
};
use flo_core::status::NodeGameStatus;
use flo_core::w3gs::{LeaveReason, Packet};

const DISCONNECTED: SupervisorAction = SupervisorAction::Emit(LanEvent::GameDisconnected);

#[test]
fn lobby_leave_rejoin() {
    let mut s = Supervisor::new();
    assert_eq!(s.phase(), Phase::Lobby);
    let mut actions = Vec::new();
    for ev in [
        SupervisorEvent::Accepted(Accepted::Stream),
        SupervisorEvent::LobbyDone(LobbyAction::Leave),
        SupervisorEvent::Accepted(Accepted::Stream),
        SupervisorEvent::LobbyDone(LobbyAction::Start),
    ] {
        actions.push(s.step(ev));
    }
    assert_eq!(
        actions,
        vec![
            SupervisorAction::RunLobby,
            SupervisorAction::Accept,
            SupervisorAction::RunLobby,
            SupervisorAction::RunLoad,
        ]
    );
    assert_eq!(actions.iter().filter(|a| **a == SupervisorAction::RunLobby).count(), 2);
    assert_eq!(s.phase(), Phase::Load);
    assert_eq!(s.step(SupervisorEvent::LoadDone(LoadNext::Running)), SupervisorAction::RunGame);
    assert_eq!(s.phase(), Phase::InGame);
    assert_eq!(s.step(SupervisorEvent::Dropped), DISCONNECTED);
    assert_eq!(s.phase(), Phase::Ended);
    assert_eq!(s.step(SupervisorEvent::Dropped), SupervisorAction::Idle);
    assert_eq!(s.step(SupervisorEvent::GameDone), SupervisorAction::Idle);
}

#[test]
fn dropping_the_session_ends_it_at_every_stage() {
    let paths: Vec<Vec<SupervisorEvent>> = vec![
        vec![],
        vec![SupervisorEvent::Accepted(Accepted::Stream)],
        vec![SupervisorEvent::Accepted(Accepted::Stream), SupervisorEvent::LobbyDone(LobbyAction::Start)],
        vec![
            SupervisorEvent::Accepted(Accepted::Stream),
            SupervisorEvent::LobbyDone(LobbyAction::Start),
            SupervisorEvent::LoadDone(LoadNext::EventsClosed),
        ],
    ];
    for path in paths {
        let mut s = Supervisor::new();
        let mut told = 0;
        for ev in path {
            if s.step(ev) == DISCONNECTED {
                told += 1;
            }
        }
        assert_eq!(told, 0);
        assert_eq!(s.step(SupervisorEvent::Dropped), DISCONNECTED);
        assert_eq!(s.current_stage(), Stage::Ended);
        assert_eq!(s.step(SupervisorEvent::Dropped), SupervisorAction::Idle);
    }
}

#[test]
fn failed_connection_attempt_is_passed_over() {
    let mut s = Supervisor::new();
    assert_eq!(s.step(SupervisorEvent::Accepted(Accepted::Failed)), SupervisorAction::Accept);
    assert_eq!(s.current_stage(), Stage::Accepting);
    assert_eq!(s.step(SupervisorEvent::Accepted(Accepted::Closed)), DISCONNECTED);
}

#[test]
fn leaving_the_load_screen_reopens_the_lobby() {
    let mut s = Supervisor::new();
    s.step(SupervisorEvent::Accepted(Accepted::Stream));
    s.step(SupervisorEvent::LobbyDone(LobbyAction::Start));
    assert_eq!(s.step(SupervisorEvent::LoadDone(LoadNext::Left)), SupervisorAction::Accept);
    assert_eq!(s.current_stage(), Stage::Accepting);
    assert_eq!(s.phase(), Phase::Lobby);
}

#[test]
fn failures_end_the_session() {
    let mut s = Supervisor::new();
    s.step(SupervisorEvent::Accepted(Accepted::Stream));
    assert_eq!(s.step(SupervisorEvent::LobbyFailed), DISCONNECTED);
    let mut s = Supervisor::new();
    s.step(SupervisorEvent::Accepted(Accepted::Stream));
    s.step(SupervisorEvent::LobbyDone(LobbyAction::Start));
    assert_eq!(s.step(SupervisorEvent::LoadDone(LoadNext::Failed(Error::StreamClosed))), DISCONNECTED);
    let mut s = Supervisor::new();
    assert_eq!(s.step(SupervisorEvent::CollectorEnded), DISCONNECTED);
}

#[test]
fn events_out_of_place_change_nothing() {
    let mut s = Supervisor::new();
    assert_eq!(s.step(SupervisorEvent::GameDone), SupervisorAction::Idle);
    assert_eq!(s.step(SupervisorEvent::LobbyDone(LobbyAction::Start)), SupervisorAction::Idle);
    assert_eq!(s.step(SupervisorEvent::LoadDone(LoadNext::Running)), SupervisorAction::Idle);
    assert_eq!(s.current_stage(), Stage::Accepting);
    s.step(SupervisorEvent::Accepted(Accepted::Stream));
    s.step(SupervisorEvent::LobbyDone(LobbyAction::Start));
    assert_eq!(s.step(SupervisorEvent::LoadDone(LoadNext::Continue)), SupervisorAction::Idle);
    assert_eq!(s.current_stage(), Stage::Load);
}

#[test]
fn relay_passes_packets_both_ways() {
    let step = relay(RelayEvent::Client(Some(Packet::OutgoingAction { data: vec![1] })));
    assert_eq!(step.action, Some(RelayAction::ToNode(Packet::OutgoingAction { data: vec![1] })));
    assert!(!step.done);
    let step = relay(RelayEvent::Node(Some(Packet::PlayerLeft { player_id: 2, reason: LeaveReason::LeaveWon })));
    assert_eq!(
        step.action,
        Some(RelayAction::ToClient(Packet::PlayerLeft { player_id: 2, reason: LeaveReason::LeaveWon }))
    );
    assert!(!step.done);
}

#[test]
fn relay_ends_on_leave_and_on_closed_streams() {
    let step = relay(RelayEvent::Client(Some(Packet::LeaveReq(LeaveReason::LeaveLost))));
    assert_eq!(step.action, Some(RelayAction::ToClient(Packet::LeaveAck)));
    assert!(step.done);
    let step = relay(RelayEvent::Client(None));
    assert_eq!(step.action, None);
    assert!(step.done);
    let step = relay(RelayEvent::Node(None));
    assert_eq!(step.action, None);
    assert!(step.done);
}

#[test]
fn lobby_ends_on_loading_leave_and_client_failure() {
    assert_eq!(lobby_outcome(&LobbyEvent::NodeStatus(NodeGameStatus::Loading)), Some(LobbyAction::Start));
    assert_eq!(lobby_outcome(&LobbyEvent::NodeStatus(NodeGameStatus::Waiting)), None);
    assert_eq!(
        lobby_outcome(&LobbyEvent::Client(Packet::LeaveReq(LeaveReason::LeaveDisconnect))),
        Some(LobbyAction::Leave)
    );
    assert_eq!(lobby_outcome(&LobbyEvent::Client(Packet::GameLoadedSelf)), None);
    assert_eq!(lobby_outcome(&LobbyEvent::ClientFailed), Some(LobbyAction::Leave));
}
