use avb_session::address::{IpAddress, SocketAddress};
use avb_session::credential::{build_credential, Credential, Mechanism};
use avb_session::server::{AuthPolicy, Cli, Config, RejectReason, ServerSession};
use lightyear_netcode::ConnectToken;

fn bind() -> SocketAddress {
    SocketAddress { ip: IpAddress::V4(0x7f00_0001), port: 16565 }
}

fn psk(key: [u8; 32]) -> Credential {
    build_credential(Mechanism::PreSharedKey, bind(), 0, &key).unwrap()
}

fn four_player_server() -> ServerSession {
    ServerSession::start(Config { addr: bind(), max_players: 4 }, AuthPolicy::placeholder())
}

#[test]
fn fifth_join_is_refused_at_capacity() {
    let mut s = four_player_server();
    for id in 1..=4u64 {
        assert_eq!(s.accept(id, &psk([0; 32])), Ok(()));
    }
    assert_eq!(s.connection_count(), 4);
    assert_eq!(s.accept(5, &psk([0; 32])), Err(RejectReason::CapacityReached));
    assert_eq!(s.connection_count(), 4);
    for id in 1..=4u64 {
        assert!(s.is_connected(id));
    }
    assert!(!s.is_connected(5));
}

#[test]
fn wrong_key_is_rejected() {
    let mut s = four_player_server();
    assert_eq!(s.accept(1, &psk([1; 32])), Err(RejectReason::CredentialRejected));
    assert_eq!(s.connection_count(), 0);
}

#[test]
fn wrong_protocol_id_is_rejected() {
    let mut s = four_player_server();
    let c = Credential::PreSharedKey {
        server_address: bind(),
        client_identity: 1,
        key: vec![0; 32],
        protocol_id: 7,
    };
    assert_eq!(s.accept(1, &c), Err(RejectReason::CredentialRejected));
}

#[test]
fn tokens_need_a_policy_that_takes_them() {
    let token = ConnectToken::build("127.0.0.1:16565", 0, 3, [1u8; 32])
        .generate()
        .unwrap()
        .try_into_bytes()
        .unwrap()
        .to_vec();
    let c = build_credential(Mechanism::SignedToken, bind(), 3, &token).unwrap();
    let mut closed = four_player_server();
    assert_eq!(closed.accept(3, &c), Err(RejectReason::CredentialRejected));
    let policy = AuthPolicy { key: vec![0; 32], protocol_id: 0, accept_tokens: true };
    let mut open = ServerSession::start(Config { addr: bind(), max_players: 4 }, policy);
    assert_eq!(open.accept(3, &c), Ok(()));
    let junk = build_credential(Mechanism::SignedToken, bind(), 4, &[0u8; 2048]).unwrap();
    assert_eq!(open.accept(4, &junk), Err(RejectReason::CredentialRejected));
}

#[test]
fn same_client_twice_is_refused() {
    let mut s = four_player_server();
    assert_eq!(s.accept(1, &psk([0; 32])), Ok(()));
    assert_eq!(s.accept(1, &psk([0; 32])), Err(RejectReason::AlreadyConnected));
    assert_eq!(s.connection_count(), 1);
}

#[test]
fn disconnect_frees_a_slot() {
    let mut s = four_player_server();
    for id in 1..=4u64 {
        s.accept(id, &psk([0; 32])).unwrap();
    }
    assert!(s.disconnect(2));
    assert!(!s.disconnect(2));
    assert_eq!(s.connection_count(), 3);
    assert!(!s.is_connected(2));
    assert_eq!(s.accept(5, &psk([0; 32])), Ok(()));
}

#[test]
fn default_config_is_localhost_four_players() {
    let c = Config::default();
    assert_eq!(c.addr, bind());
    assert_eq!(c.max_players, 4);
}

#[test]
fn complete_overrides_win() {
    let cli = Cli { ip: Some(IpAddress::V4(0x0A00_0001)), port: Some(4000), max_players: Some(8) };
    let stored = Some(Config { addr: bind(), max_players: 2 });
    let (c, write) = Config::new(cli, stored);
    assert_eq!(c.addr, SocketAddress { ip: IpAddress::V4(0x0A00_0001), port: 4000 });
    assert_eq!(c.max_players, 8);
    assert!(!write);
}

#[test]
fn partial_overrides_are_ignored() {
    let cli = Cli { ip: Some(IpAddress::V4(0x0A00_0001)), port: None, max_players: Some(8) };
    let stored = Config { addr: SocketAddress { ip: IpAddress::V6(1), port: 9 }, max_players: 2 };
    assert_eq!(Config::new(cli, Some(stored)), (stored, false));
    assert_eq!(Config::new(cli, None), (Config::default(), true));
    assert!(cli.into_validated().is_none());
}

#[test]
fn open_falls_back_to_default() {
    let stored = Config { addr: bind(), max_players: 9 };
    assert_eq!(Config::open(Some(stored)), (stored, false));
    assert_eq!(Config::open(None), (Config::default(), true));
}

#[test]
fn validated_cli_keeps_values() {
    let cli = Cli { ip: Some(IpAddress::V6(5)), port: Some(1), max_players: Some(3) };
    let v = cli.into_validated().unwrap();
    assert_eq!(v.ip, IpAddress::V6(5));
    assert_eq!(v.port, 1);
    assert_eq!(v.max_players, 3);
    let c = Config::from_validated(v);
    assert_eq!(c.addr, SocketAddress { ip: IpAddress::V6(5), port: 1 });
}
