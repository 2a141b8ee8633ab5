use yuttari::message::{Message, MessagePayload, MessageType};
use yuttari::user::User;

#[test]
fn message_roundtrip_chat() {
    let m = Message::create_all(0x1234, MessageType::Message, vec![1, 2, 3]);
    let r = Message::from_bytes(m.to_bytes());
    assert_eq!(r.id, 0x1234);
    assert_eq!(r.message_type, MessageType::Message);
    assert_eq!(r.payload, vec![1, 2, 3]);
}

#[test]
fn message_roundtrip_all_kinds() {
    let cases = vec![
        (7u64, MessageType::Message, vec![0u8, 255, 17]),
        (u64::MAX, MessageType::ConnectionReceive, vec![9u8; 40]),
        (0u64, MessageType::Login, Vec::new()),
        (42u64, MessageType::Unknown, Vec::new()),
    ];
    for (id, kind, payload) in cases {
        let m = Message::create_all(id, kind, payload.clone());
        let r = Message::from_bytes(m.to_bytes());
        assert_eq!(r.id, id);
        assert_eq!(r.message_type, kind);
        assert_eq!(r.payload, payload);
    }
}

#[test]
fn message_frame_exact_bytes() {
    let m = Message::create_all(0x0102030405060708, MessageType::Message, vec![0xAA]);
    let expected = vec![
        1u8, 2, 3, 4, 5, 6, 7, 8, // identifier, big-endian
        1, // kind tag
        0, 0, 0, 0, 0, 0, 0, 1, // payload length, big-endian
        0xAA,
    ];
    assert_eq!(m.to_bytes(), expected);
}

#[test]
fn message_length_matches_frame() {
    let m = Message::create_all(5, MessageType::Login, vec![1, 2, 3, 4]);
    assert_eq!(m.length(), 17 + 4);
    assert_eq!(m.length(), m.to_bytes().len());
}

#[test]
fn decode_garbage_yields_unknown() {
    for bytes in [
        Vec::new(),
        vec![1u8, 2, 3],
        vec![0u8; 16],
        vec![0xFFu8; 64],
        b"definitely not a frame".to_vec(),
    ] {
        let r = Message::from_bytes(bytes);
        assert_eq!(r.message_type, MessageType::Unknown);
        assert!(r.payload.is_empty());
    }
}

#[test]
fn decode_rejects_bad_length_field() {
    let m = Message::create_all(1, MessageType::Message, vec![1, 2, 3]);
    let mut bytes = m.to_bytes();
    // overstate the payload length
    bytes[16] = 200;
    let r = Message::from_bytes(bytes);
    assert_eq!(r.message_type, MessageType::Unknown);
    assert!(r.payload.is_empty());
}

#[test]
fn decode_rejects_unknown_tag() {
    let m = Message::create_all(1, MessageType::Message, vec![1, 2, 3]);
    let mut bytes = m.to_bytes();
    bytes[8] = 9;
    let r = Message::from_bytes(bytes);
    assert_eq!(r.message_type, MessageType::Unknown);
    assert!(r.payload.is_empty());
}

#[test]
fn change_payload_keeps_envelope() {
    let mut m = Message::create_all(3, MessageType::Message, vec![1]);
    m.change_payload(vec![4, 5]);
    assert_eq!(m.id, 3);
    assert_eq!(m.message_type, MessageType::Message);
    assert_eq!(m.payload, vec![4, 5]);
}

#[test]
fn chat_payload_roundtrip() {
    let p = MessagePayload::new("alice".to_string(), b"hello there".to_vec());
    let r = MessagePayload::from_bytes(p.to_bytes());
    assert_eq!(r.username, "alice");
    assert_eq!(r.message, b"hello there".to_vec());
}

#[test]
fn chat_payload_roundtrip_unicode_username() {
    let p = MessagePayload::new("ユーザー".to_string(), vec![0, 1, 2]);
    let r = MessagePayload::from_bytes(p.to_bytes());
    assert_eq!(r.username, "ユーザー");
    assert_eq!(r.message, vec![0, 1, 2]);
}

#[test]
fn chat_payload_sentinel_on_garbage() {
    let r = MessagePayload::from_bytes(vec![1, 2, 3]);
    assert_eq!(r.username, "");
    assert_eq!(r.message, b"00000000".to_vec());
}

#[test]
fn chat_payload_sentinel_on_invalid_utf8() {
    // username length 2, username bytes that are not UTF-8
    let mut bytes = vec![0u8, 0, 0, 0, 0, 0, 0, 2];
    bytes.push(0xFF);
    bytes.push(0xFE);
    let r = MessagePayload::from_bytes(bytes);
    assert_eq!(r.username, "");
    assert_eq!(r.message, b"00000000".to_vec());
}

#[test]
fn user_sentinel_on_invalid_utf8() {
    let u = User::create_all(1, "ab".to_string(), vec![7u8; 32]);
    let mut bytes = u.to_bytes();
    // corrupt the two username bytes into invalid UTF-8
    bytes[16] = 0xFF;
    bytes[17] = 0xFE;
    let r = User::from_bytes(bytes);
    assert_eq!(r.username, "Unknown");
    assert!(r.public_key.is_empty());
}

#[test]
fn user_roundtrip() {
    let u = User::create_all(99, "alice".to_string(), vec![7u8; 32]);
    let r = User::from_bytes(u.to_bytes());
    assert_eq!(r.id, 99);
    assert_eq!(r.username, "alice");
    assert_eq!(r.public_key, vec![7u8; 32]);
}

#[test]
fn user_sentinel_on_garbage() {
    let r = User::from_bytes(vec![0u8; 5]);
    assert_eq!(r.username, "Unknown");
    assert!(r.public_key.is_empty());
}

#[test]
fn user_sentinel_on_short_key() {
    // a record whose key segment is not exactly 32 bytes is not an identity
    let u = User::create_all(1, "alice".to_string(), vec![7u8; 16]);
    let r = User::from_bytes(u.to_bytes());
    assert_eq!(r.username, "Unknown");
}

#[test]
fn user_equality_is_by_identifier() {
    let a = User::create_all(5, "alice".to_string(), vec![1u8; 32]);
    let b = User::create_all(5, "bob".to_string(), vec![2u8; 32]);
    let c = User::create_all(6, "alice".to_string(), vec![1u8; 32]);
    assert!(a == b);
    assert!(a != c);
}

#[test]
fn change_username_keeps_identity() {
    let mut u = User::create_all(4, "alice".to_string(), vec![3u8; 32]);
    u.change_username("alicia".to_string());
    assert_eq!(u.id, 4);
    assert_eq!(u.username, "alicia");
    assert_eq!(u.public_key, vec![3u8; 32]);
}
