use avb_session::wire::{DecodeError, Field, TokenResponse, TOKEN_MAX_BYTES};
use lightyear_netcode::{ConnectToken, CONNECT_TOKEN_BYTES};

fn real_token() -> Vec<u8> {
    ConnectToken::build("127.0.0.1:16565", 0, 42, [7u8; 32])
        .generate()
        .unwrap()
        .try_into_bytes()
        .unwrap()
        .to_vec()
}

fn field(name: &[u8], value: &[u8]) -> Vec<u8> {
    let mut out = vec![name.len() as u8];
    out.extend_from_slice(name);
    out.extend_from_slice(value);
    out
}

fn port_field(port: u16) -> Vec<u8> {
    field(b"game_port", &port.to_le_bytes())
}

fn token_field(token: &[u8]) -> Vec<u8> {
    let mut value = (token.len() as u16).to_le_bytes().to_vec();
    value.extend_from_slice(token);
    field(b"token_bytes", &value)
}

#[test]
fn max_token_size_matches_netcode() {
    assert_eq!(TOKEN_MAX_BYTES, CONNECT_TOKEN_BYTES);
}

#[test]
fn round_trip_keeps_port_and_token() {
    let token = real_token();
    let r = TokenResponse::new(16565, token.clone()).unwrap();
    let bytes = r.serialize();
    let back = TokenResponse::deserialize(&bytes).unwrap();
    assert_eq!(back.game_port(), 16565);
    assert_eq!(back.token_bytes(), &token);
}

#[test]
fn serialized_layout_is_exact() {
    let token = real_token();
    let r = TokenResponse::new(0x40B5, token.clone()).unwrap();
    let bytes = r.serialize();
    let mut expected = port_field(0x40B5);
    expected.extend(token_field(&token));
    assert_eq!(bytes, expected);
    assert_eq!(&bytes[..12], &[9, b'g', b'a', b'm', b'e', b'_', b'p', b'o', b'r', b't', 0xB5, 0x40]);
    assert_eq!(bytes.len(), 12 + 1 + 11 + 2 + CONNECT_TOKEN_BYTES);
}

#[test]
fn fields_in_either_order_decode() {
    let token = real_token();
    let mut bytes = token_field(&token);
    bytes.extend(port_field(1234));
    let r = TokenResponse::deserialize(&bytes).unwrap();
    assert_eq!(r.game_port(), 1234);
    assert_eq!(r.token_bytes(), &token);
}

#[test]
fn missing_port_is_rejected() {
    let bytes = token_field(&real_token());
    assert_eq!(TokenResponse::deserialize(&bytes).err(), Some(DecodeError::MissingField(Field::GamePort)));
}

#[test]
fn missing_token_is_rejected() {
    let bytes = port_field(80);
    assert_eq!(
        TokenResponse::deserialize(&bytes).err(),
        Some(DecodeError::MissingField(Field::TokenBytes))
    );
}

#[test]
fn empty_input_is_rejected() {
    assert_eq!(TokenResponse::deserialize(&[]).err(), Some(DecodeError::MissingField(Field::GamePort)));
}

#[test]
fn duplicate_port_is_rejected() {
    let token = real_token();
    let mut bytes = port_field(1);
    bytes.extend(token_field(&token));
    bytes.extend(port_field(2));
    assert_eq!(
        TokenResponse::deserialize(&bytes).err(),
        Some(DecodeError::DuplicateField(Field::GamePort))
    );
}

#[test]
fn duplicate_token_is_rejected() {
    let token = real_token();
    let mut bytes = token_field(&token);
    bytes.extend(token_field(&token));
    bytes.extend(port_field(2));
    assert_eq!(
        TokenResponse::deserialize(&bytes).err(),
        Some(DecodeError::DuplicateField(Field::TokenBytes))
    );
}

#[test]
fn both_fields_duplicated_is_rejected() {
    let token = real_token();
    let mut bytes = port_field(1);
    bytes.extend(token_field(&token));
    bytes.extend(port_field(1));
    bytes.extend(token_field(&token));
    assert!(TokenResponse::deserialize(&bytes).is_err());
}

#[test]
fn unknown_field_is_rejected() {
    let token = real_token();
    let mut bytes = port_field(1);
    bytes.extend(token_field(&token));
    bytes.extend(field(b"extra", &[1, 2, 3]));
    assert_eq!(TokenResponse::deserialize(&bytes).err(), Some(DecodeError::UnknownField));
}

#[test]
fn near_miss_field_names_are_rejected() {
    let token = real_token();
    for name in [&b"sssssssgame_port"[..], b"game_por", b"Game_port", b"game_portt", b"connect_token_bytes"] {
        let mut bytes = field(name, &[1, 0]);
        bytes.extend(token_field(&token));
        assert_eq!(TokenResponse::deserialize(&bytes).err(), Some(DecodeError::UnknownField));
    }
}

#[test]
fn truncated_input_is_rejected() {
    let token = real_token();
    let mut bytes = port_field(1);
    bytes.extend(token_field(&token));
    bytes.pop();
    assert_eq!(TokenResponse::deserialize(&bytes).err(), Some(DecodeError::Truncated));
    assert_eq!(TokenResponse::deserialize(&[9, b'g']).err(), Some(DecodeError::Truncated));
    assert_eq!(TokenResponse::deserialize(&port_field(1)[..10]).err(), Some(DecodeError::Truncated));
}

#[test]
fn oversized_token_is_rejected() {
    let mut bytes = port_field(1);
    let mut value = 2049u16.to_le_bytes().to_vec();
    value.extend(vec![0u8; 2049]);
    bytes.extend(field(b"token_bytes", &value));
    assert_eq!(TokenResponse::deserialize(&bytes).err(), Some(DecodeError::OversizedToken));
}

#[test]
fn malformed_token_is_rejected() {
    let mut bytes = port_field(1);
    bytes.extend(token_field(&vec![0u8; CONNECT_TOKEN_BYTES]));
    assert_eq!(TokenResponse::deserialize(&bytes).err(), Some(DecodeError::InvalidToken));
    let mut short = port_field(1);
    short.extend(token_field(&real_token()[..100]));
    assert_eq!(TokenResponse::deserialize(&short).err(), Some(DecodeError::InvalidToken));
}

#[test]
fn new_checks_the_token() {
    assert_eq!(TokenResponse::new(1, vec![0u8; 2049]).err(), Some(DecodeError::OversizedToken));
    assert_eq!(TokenResponse::new(1, vec![0u8; 2048]).err(), Some(DecodeError::InvalidToken));
    assert_eq!(TokenResponse::new(1, Vec::new()).err(), Some(DecodeError::InvalidToken));
    assert!(TokenResponse::new(1, real_token()).is_ok());
}
