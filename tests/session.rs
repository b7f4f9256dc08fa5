use avb_session::address::{IpAddress, SocketAddress};
use avb_session::client::{
    startup_join, ClientSession, Config, ConnectionState, FailureReason, JoinGameEvent,
    LeaveGameEvent, SessionError, SessionEvent, TransportEvent,
};
use avb_session::credential::Credential;
use avb_session::states::{AppState, GameState};

fn peer() -> SocketAddress {
    SocketAddress { ip: IpAddress::V4(0xCB00_7105), port: 16565 }
}

fn ready_session() -> ClientSession {
    let mut s = ClientSession::new(Config { peer_address: None, client_id: 42 });
    s.spawn_endpoint().unwrap();
    s
}

fn manual_join() -> JoinGameEvent {
    JoinGameEvent::Manual { address: peer(), key: vec![0u8; 32] }
}

#[test]
fn join_with_zero_key_enters_game_and_records_peer() {
    let mut s = ready_session();
    let req = s.request_join(manual_join()).unwrap();
    assert_eq!(req.address, peer());
    match &req.credential {
        Credential::PreSharedKey { server_address, client_identity, key, protocol_id } => {
            assert_eq!(*server_address, peer());
            assert_eq!(*client_identity, 42);
            assert_eq!(key, &vec![0u8; 32]);
            assert_eq!(*protocol_id, 0);
        }
        other => panic!("unexpected {:?}", other),
    }
    assert_eq!(s.connection_state(), Some(ConnectionState::Authenticating));
    assert_eq!(s.peer_address(), Some(peer()));
    assert_eq!(s.app_state(), AppState::MainMenu);
    let ev = s.on_transport_event(TransportEvent::Accepted { generation: req.generation });
    assert_eq!(ev, Some(SessionEvent::JoinSucceeded));
    assert_eq!(s.app_state(), AppState::InGame(GameState::Playing));
    assert_eq!(s.connection_state(), Some(ConnectionState::Connected));
    assert_eq!(s.peer_address(), Some(peer()));
}

#[test]
fn second_join_is_refused_and_changes_nothing() {
    let mut s = ready_session();
    let req = s.request_join(manual_join()).unwrap();
    let other = JoinGameEvent::Token {
        address: SocketAddress { ip: IpAddress::V4(1), port: 1 },
        token: vec![1, 2, 3],
    };
    assert_eq!(s.request_join(other).err(), Some(SessionError::EndpointAlreadyActive));
    assert_eq!(s.connection_state(), Some(ConnectionState::Authenticating));
    assert_eq!(s.peer_address(), Some(peer()));
    assert_eq!(s.generation(), Some(req.generation));
    s.on_transport_event(TransportEvent::Accepted { generation: req.generation });
    assert_eq!(s.request_join(manual_join()).err(), Some(SessionError::EndpointAlreadyActive));
    assert_eq!(s.connection_state(), Some(ConnectionState::Connected));
    assert_eq!(s.app_state(), AppState::InGame(GameState::Playing));
}

#[test]
fn leave_after_join_returns_to_menu_and_clears_entities() {
    let mut s = ready_session();
    let req = s.request_join(manual_join()).unwrap();
    s.on_transport_event(TransportEvent::Accepted { generation: req.generation });
    s.spawn_in_game_entity(7).unwrap();
    s.spawn_in_game_entity(8).unwrap();
    s.set_game_state(GameState::Editing).unwrap();
    assert!(s.has_entity(7) && s.has_entity(8));
    assert_eq!(s.request_leave(LeaveGameEvent), Ok(Some(SessionEvent::SessionClosed)));
    assert_eq!(s.app_state(), AppState::MainMenu);
    assert_eq!(s.connection_state(), Some(ConnectionState::Idle));
    assert_eq!(s.peer_address(), None);
    assert!(!s.has_credential());
    assert!(s.no_entities());
    assert!(!s.has_entity(7));
}

#[test]
fn leave_when_idle_is_a_no_op() {
    let mut s = ready_session();
    assert_eq!(s.request_leave(LeaveGameEvent), Ok(None));
    assert_eq!(s.connection_state(), Some(ConnectionState::Idle));
    assert_eq!(s.app_state(), AppState::MainMenu);
    assert_eq!(s.generation(), Some(0));
    assert_eq!(s.request_leave(LeaveGameEvent), Ok(None));
}

#[test]
fn transport_failure_returns_to_idle_in_menu() {
    let mut s = ready_session();
    let req = s.request_join(manual_join()).unwrap();
    let ev = s.on_transport_event(TransportEvent::Failed {
        generation: req.generation,
        reason: FailureReason::CredentialRejected,
    });
    assert_eq!(ev, Some(SessionEvent::JoinFailed(FailureReason::CredentialRejected)));
    assert_eq!(s.connection_state(), Some(ConnectionState::Idle));
    assert_eq!(s.app_state(), AppState::MainMenu);
    assert!(!s.has_credential());
    assert!(s.request_join(manual_join()).is_ok());
}

#[test]
fn stale_acceptance_after_leave_is_ignored() {
    let mut s = ready_session();
    let first = s.request_join(manual_join()).unwrap();
    assert_eq!(s.request_leave(LeaveGameEvent), Ok(Some(SessionEvent::SessionClosed)));
    assert_eq!(s.on_transport_event(TransportEvent::Accepted { generation: first.generation }), None);
    assert_eq!(s.app_state(), AppState::MainMenu);
    let second = s.request_join(manual_join()).unwrap();
    assert_ne!(first.generation, second.generation);
    assert_eq!(s.on_transport_event(TransportEvent::Accepted { generation: first.generation }), None);
    assert_eq!(s.connection_state(), Some(ConnectionState::Authenticating));
}

#[test]
fn second_endpoint_is_refused() {
    let mut s = ready_session();
    assert_eq!(s.spawn_endpoint(), Err(SessionError::EndpointAlreadyExists));
}

#[test]
fn join_without_endpoint_fails() {
    let mut s = ClientSession::new(Config { peer_address: None, client_id: 1 });
    assert_eq!(s.request_join(manual_join()).err(), Some(SessionError::NoEndpoint));
    assert_eq!(s.request_leave(LeaveGameEvent), Err(SessionError::NoEndpoint));
    assert_eq!(s.connection_state(), None);
}

#[test]
fn bad_key_is_an_invalid_credential() {
    let mut s = ready_session();
    let ev = JoinGameEvent::Manual { address: peer(), key: vec![0u8; 16] };
    assert_eq!(s.request_join(ev).err(), Some(SessionError::InvalidCredential));
    assert_eq!(s.connection_state(), Some(ConnectionState::Idle));
    assert_eq!(s.peer_address(), None);
}

#[test]
fn token_join_attaches_the_token() {
    let mut s = ready_session();
    let ev = JoinGameEvent::Token { address: peer(), token: vec![9, 9, 9] };
    let req = s.request_join(ev).unwrap();
    match &req.credential {
        Credential::SignedToken { server_address, token } => {
            assert_eq!(*server_address, peer());
            assert_eq!(token, &vec![9, 9, 9]);
        }
        other => panic!("unexpected {:?}", other),
    }
    assert!(s.has_credential());
    assert_eq!(req.generation, 1);
}

#[test]
fn game_state_needs_a_game() {
    let mut s = ready_session();
    assert_eq!(s.set_game_state(GameState::Paused), Err(SessionError::NotInGame));
    assert_eq!(s.spawn_in_game_entity(3), Err(SessionError::NotInGame));
    let req = s.request_join(manual_join()).unwrap();
    s.on_transport_event(TransportEvent::Accepted { generation: req.generation });
    assert_eq!(s.set_game_state(GameState::Paused), Ok(()));
    assert_eq!(s.app_state(), AppState::InGame(GameState::Paused));
    assert_eq!(s.app_state().game_state(), Some(GameState::Paused));
}

#[test]
fn startup_joins_configured_peer_with_zero_key() {
    let config = Config { peer_address: Some(peer()), client_id: 42 };
    match startup_join(&config) {
        Some(JoinGameEvent::Manual { address, key }) => {
            assert_eq!(address, peer());
            assert_eq!(key, vec![0u8; 32]);
        }
        other => panic!("unexpected {:?}", other),
    }
    assert!(startup_join(&Config { peer_address: None, client_id: 42 }).is_none());
}

#[test]
fn startup_scenario_reaches_the_game() {
    let config = Config { peer_address: Some(peer()), client_id: 42 };
    let mut s = ClientSession::new(config);
    s.spawn_endpoint().unwrap();
    let req = s.request_join(startup_join(&config).unwrap()).unwrap();
    s.on_transport_event(TransportEvent::Accepted { generation: req.generation });
    assert_eq!(s.app_state(), AppState::InGame(GameState::Playing));
    assert_eq!(s.peer_address(), Some(peer()));
}
