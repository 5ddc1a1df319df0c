use base64::Engine;
use md5::{Digest, Md5};
use rustcraft::connection::ConnectionState;
use rustcraft::err::{CodecError, ProtError};
use rustcraft::protocol_types::compound::{Position, Uuid};
use rustcraft::protocol_types::primitives::VarInt;
use rustcraft::protocol_util::{
    name_uuid, offline_name, parse_uuid, random_keep_alive_id, random_teleport_id,
    random_token, show, teleport_id,
};
use rustcraft::serve::status_json;

#[test]
fn name_uuid_is_the_marked_md5_of_the_name() {
    let name = String::from("OfflinePlayer:Alice");
    let mut digest: [u8; 16] = Md5::digest(name.as_bytes()).into();
    digest[6] = (digest[6] & 0x0f) | 0x30;
    digest[8] = (digest[8] & 0x3f) | 0x80;
    let uuid = name_uuid(name);
    assert_eq!(uuid.value, u128::from_be_bytes(digest));
    assert_eq!((uuid.value >> 76) & 0xf, 3);
    assert_eq!((uuid.value >> 62) & 0x3, 2);
    assert_eq!(uuid.value, uuid::Uuid::from_bytes(digest).as_u128());
}

#[test]
fn name_uuid_of_a_known_player() {
    let uuid = name_uuid(offline_name("Notch"));
    assert_eq!(
        uuid::Uuid::from_u128(uuid.value).to_string(),
        "b50ad385-829d-3141-a216-7e7d7539ba7f"
    );
    assert_ne!(name_uuid(offline_name("notch")), uuid);
    assert_eq!(offline_name("Alice"), "OfflinePlayer:Alice");
}

#[test]
fn uuids_are_read_from_hexadecimal_digits() {
    assert_eq!(
        parse_uuid("4566e69fc90748ee8d71d7ba5aa00d20"),
        Some(Uuid { value: 0x4566e69f_c907_48ee_8d71_d7ba5aa00d20 })
    );
    assert_eq!(
        parse_uuid("4566e69f-c907-48ee-8d71-d7ba5aa00d20"),
        Some(Uuid { value: 0x4566e69f_c907_48ee_8d71_d7ba5aa00d20 })
    );
    assert_eq!(parse_uuid("4566e69f"), None);
    assert_eq!(parse_uuid(""), None);
    assert_eq!(parse_uuid("zz66e69fc90748ee8d71d7ba5aa00d20"), None);
}

#[test]
fn show_escapes_what_is_not_printable() {
    assert_eq!(show(b"hello"), "hello");
    assert_eq!(show(b""), "");
    assert_eq!(show(&[0, 9, 10, 13, 31, 32, 126, 127, 255]), "\\x00\\t\\n\\r\\x1f ~\\x7f\\xff");
    assert_eq!(show(b"a'b\"c\\d"), "a\\'b\\\"c\\\\d");
    let all: Vec<u8> = (0..=255).collect();
    let expected: String = all
        .iter()
        .map(|b| String::from_utf8(std::ascii::escape_default(*b).collect()).unwrap())
        .collect();
    assert_eq!(show(&all), expected);
}

#[test]
fn status_holds_the_icon_in_base64() {
    let icon = [0x89, b'P', b'N', b'G', 0, 1, 2];
    let json = status_json(&icon);
    let encoded = base64::engine::general_purpose::STANDARD.encode(icon);
    assert_eq!(encoded, "iVBORwABAg==");
    assert!(json.contains("\"favicon\": \"data:image/png;base64,iVBORwABAg==\","));
    let value: serde_json::Value = serde_json::from_str(&json).unwrap();
    assert_eq!(value["version"]["protocol"], 764);
    assert_eq!(value["version"]["name"], "1.20.2");
    assert_eq!(value["players"]["max"], 100);
    assert_eq!(value["enforcesSecureChat"], true);
    assert_eq!(value["favicon"], "data:image/png;base64,iVBORwABAg==");
    assert!(json.starts_with("\n{\n    \"version\""));
    assert!(json.ends_with("\"previewsChat\": true\n}\n"));
    assert!(status_json(&[]).contains("base64,\","));
}

#[test]
fn chance_gives_what_is_asked_for() {
    assert_eq!(random_token().len(), 4);
    let tokens: Vec<Vec<u8>> = (0..8).map(|_| random_token()).collect();
    assert!(tokens.iter().any(|token| token != &tokens[0]));
    let ids: Vec<i64> = (0..8).map(|_| random_keep_alive_id()).collect();
    assert!(ids.iter().any(|id| *id != ids[0]));
    let ids: Vec<i32> = (0..8).map(|_| random_teleport_id()).collect();
    assert!(ids.iter().any(|id| *id != ids[0]));
}

#[test]
fn teleport_ids_are_the_low_bits_and_never_zero() {
    assert_eq!(teleport_id(5), 5);
    assert_eq!(teleport_id(0x7fff_ffff), i32::MAX);
    assert_eq!(teleport_id(0x8000_0000), i32::MIN);
    assert_eq!(teleport_id(0xffff_ffff), -1);
    assert_eq!(teleport_id(0x1_0000_0007), 7);
    assert_eq!(teleport_id(0), 1);
    assert_eq!(teleport_id(0x1_0000_0000), 1);
    assert_eq!(teleport_id(1), 1);
    for _ in 0..64 {
        assert_ne!(random_teleport_id(), 0);
    }
}

#[test]
fn errors_end_the_connection_or_not() {
    assert!(ProtError::InvalidNextState(VarInt { value: 3 }).is_fatal());
    assert!(ProtError::ChannelClosed.is_fatal());
    assert!(ProtError::KeepAliveIdMismatch(1, 2).is_fatal());
    assert!(ProtError::TeleportIdMismatch(VarInt { value: 1 }, VarInt { value: 2 }).is_fatal());
    assert!(ProtError::PositionOutOfBounds(Position::new(0, 16, 0)).is_fatal());
    assert!(ProtError::VerifyTokenMismatch.is_fatal());
    assert!(!ProtError::UnknownPacket(VarInt { value: 9 }, ConnectionState::Play).is_fatal());
    assert!(!ProtError::Codec(CodecError::InvalidUtf8).is_fatal());
    assert!(!ProtError::Any(String::from("anything")).is_fatal());
}
