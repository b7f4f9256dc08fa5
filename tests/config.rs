use avb_session::address::{ip_addr_into_socket_addr, IpAddress, SocketAddress, DEFAULT_PORT};
use avb_session::client::{client_id_from_millis, get_client_id, Cli, Config};

#[test]
fn socket_address_joins_ip_and_port() {
    let a = ip_addr_into_socket_addr(IpAddress::V4(0xCB00_7105), 16565);
    assert_eq!(a, SocketAddress { ip: IpAddress::V4(0xCB00_7105), port: 16565 });
    let b = ip_addr_into_socket_addr(IpAddress::V6(1), 80);
    assert_eq!(b.ip, IpAddress::V6(1));
    assert_eq!(b.port, 80);
}

#[test]
fn default_port_value() {
    assert_eq!(DEFAULT_PORT, 16565);
}

#[test]
fn full_address_wins_over_ip() {
    let addr = SocketAddress { ip: IpAddress::V4(1), port: 2 };
    let cli = Cli { address: Some(addr), ip: Some(IpAddress::V4(9)), port: Some(9), client_id: Some(5) };
    let c = Config::from_cli(cli, 77);
    assert_eq!(c.peer_address, Some(addr));
    assert_eq!(c.client_id, 5);
}

#[test]
fn ip_without_port_uses_default_port() {
    let cli = Cli { address: None, ip: Some(IpAddress::V4(9)), port: None, client_id: None };
    let c = Config::from_cli(cli, 77);
    assert_eq!(c.peer_address, Some(SocketAddress { ip: IpAddress::V4(9), port: 16565 }));
    assert_eq!(c.client_id, 77);
    let cli = Cli { address: None, ip: Some(IpAddress::V4(9)), port: Some(3), client_id: None };
    assert_eq!(Config::from_cli(cli, 0).peer_address, Some(SocketAddress { ip: IpAddress::V4(9), port: 3 }));
}

#[test]
fn no_address_no_peer() {
    let cli = Cli { address: None, ip: None, port: Some(3), client_id: Some(1) };
    let c = Config::new(cli).unwrap();
    assert_eq!(c.peer_address, None);
    assert_eq!(c.client_id, 1);
}

#[test]
fn client_id_is_low_bits_of_millis() {
    assert_eq!(client_id_from_millis(1_700_000_000_000), 1_700_000_000_000);
    assert_eq!(client_id_from_millis((1u128 << 64) + 5), 5);
}

#[test]
fn clock_gives_an_identity() {
    let id = get_client_id().unwrap();
    assert!(id > 1_600_000_000_000);
    let cli = Cli { address: None, ip: None, port: None, client_id: None };
    assert!(Config::new(cli).unwrap().client_id > 1_600_000_000_000);
}

#[test]
fn tick_is_sixteen_millis_at_sixty_hertz() {
    assert_eq!(avb_session::TARGET_TICK_RATE, 60);
    assert_eq!(avb_session::tick_duration_millis(), 16);
}
