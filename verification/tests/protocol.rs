use openssl::rsa::{Padding, Rsa};
use openssl::symm::{Cipher, Crypter, Mode};
use rustcraft::chunk::section::ChunkSection;
use rustcraft::connection::{ConnectionInfo, ConnectionState};
use rustcraft::encryption::compute_server_hash;
use rustcraft::err::{CodecError, ProtError};
use rustcraft::nbt::NbtCompound;
use rustcraft::packets::client;
use rustcraft::packets::client::{write_frame, ClientPackets};
use rustcraft::packets::handle::{
    encryption_decided, finish_login, get_chunks, handle, handle_with, same_bytes, Dice, Reply,
};
use rustcraft::packets::parse::{length_prefix, parse_packet, LengthStep};
use rustcraft::packets::server;
use rustcraft::packets::server::{ServerPacketKind, ServerPackets};
use rustcraft::protocol_types::chat::Chat;
use rustcraft::protocol_types::compound::{GameEvent, PosRotGround, Position, Uuid};
use rustcraft::protocol_types::numbers::{Double, Float};
use rustcraft::protocol_types::primitives::VarInt;
use rustcraft::protocol_types::sequences::SizedVec;
use rustcraft::protocol_types::traits::{ClientPacket, ServerPacket, SizedProt, WriteProt};
use rustcraft::protocol_util::{name_uuid, offline_name};
use rustcraft::serve::{
    accept_packet, close_if_fatal, heartbeat_with, incoming, outgoing, player_info,
    reader_step, run_heartbeat, Assets, HeartbeatStep, ReaderStep, HEARTBEAT_SECONDS, PORT,
};

fn assets(online: bool) -> Assets {
    let key = Rsa::generate(1024).unwrap();
    Assets {
        pub_key: key.public_key_to_der().unwrap(),
        key,
        online,
        motd: String::from("{\"description\":{\"text\":\"hello\"}}"),
        registry: NbtCompound::from_bytes(vec![10, 1, 0, 1, b'r', 7, 0]).unwrap(),
    }
}

fn dice() -> Dice {
    Dice { token: vec![9, 8, 7, 6], teleport_id: 1234 }
}

fn packets(reply: Result<Reply, ProtError>) -> Vec<ClientPackets> {
    match reply {
        Ok(Reply::Packets(packets)) => packets,
        Ok(Reply::Authenticate { .. }) => panic!("asks for the session server"),
        Err(e) => panic!("unexpected {:?}", e),
    }
}

fn in_state(state: ConnectionState) -> ConnectionInfo {
    let mut connection = ConnectionInfo::new();
    connection.set_state(state);
    connection
}

fn handshake_frame(next_state: u8) -> Vec<u8> {
    let mut frame = vec![0x00, 0xfc, 0x05, 0x09];
    frame.extend_from_slice(b"localhost");
    frame.extend_from_slice(&[0x63, 0xdd, next_state]);
    frame
}

#[test]
fn new_connection_is_in_the_handshake() {
    let connection = ConnectionInfo::new();
    assert_eq!(connection.state(), ConnectionState::Handshake);
    assert!(!connection.closed());
    assert_eq!(connection.verify_token, vec![0, 0, 0, 0]);
    assert!(connection.encrypter.is_none() && connection.decrypter.is_none());
    assert_eq!(connection.username, "");
    assert_eq!(connection.uuid, Uuid::nil());
    assert_eq!(connection.teleport_id, VarInt { value: 0 });
    assert_eq!(connection.keep_alive_id, 0);
    assert_eq!(connection.position.x, Double { bits: 0 });
    assert_eq!(PORT, 25565);
    assert_eq!(HEARTBEAT_SECONDS, 10);
    let mut connection = connection;
    connection.close();
    assert!(connection.closed());
    assert_eq!(connection.state(), ConnectionState::Handshake);
}

#[test]
fn length_is_learnt_byte_by_byte() {
    assert_eq!(length_prefix(&[]), LengthStep::NeedMore);
    assert_eq!(length_prefix(&[0x10]), LengthStep::Length(16));
    assert_eq!(length_prefix(&[0x00]), LengthStep::Length(0));
    assert_eq!(length_prefix(&[0xdd]), LengthStep::NeedMore);
    assert_eq!(length_prefix(&[0xdd, 0xc7]), LengthStep::NeedMore);
    assert_eq!(length_prefix(&[0xdd, 0xc7, 0x01]), LengthStep::Length(25565));
    assert_eq!(
        length_prefix(&[0xff, 0xff, 0xff, 0xff, 0x07]),
        LengthStep::Length(2147483647)
    );
    assert_eq!(length_prefix(&[0xff, 0xff, 0xff, 0xff, 0x0f]), LengthStep::Negative);
    assert_eq!(length_prefix(&[0xff, 0xff, 0xff, 0xff, 0xff]), LengthStep::TooBig);
}

#[test]
fn handshake_is_read_from_its_frame() {
    let frame = handshake_frame(1);
    assert_eq!(frame.len(), 16);
    match parse_packet(&frame, ConnectionState::Handshake).unwrap() {
        ServerPackets::Handshake(packet) => {
            assert_eq!(packet.prot_version, VarInt { value: 764 });
            assert_eq!(packet.server_address, "localhost");
            assert_eq!(packet.server_port, 25565);
            assert_eq!(packet.next_state, VarInt { value: 1 });
            assert_eq!(packet.prot_size(), 15);
        }
        other => panic!("unexpected {:?}", other),
    }
}

#[test]
fn every_packet_is_known_in_its_state_only() {
    let all = [
        ServerPacketKind::Handshake,
        ServerPacketKind::StatusReq,
        ServerPacketKind::PingReq,
        ServerPacketKind::LoginStart,
        ServerPacketKind::EncryptionResponse,
        ServerPacketKind::LoginAck,
        ServerPacketKind::ClientInfo,
        ServerPacketKind::ConfigurationFinish,
        ServerPacketKind::ConfigurationKeepAlive,
        ServerPacketKind::PlayKeepAlive,
        ServerPacketKind::PlayerSession,
        ServerPacketKind::SetPlayerPosition,
        ServerPacketKind::SetPlayerPositionAndRotation,
        ServerPacketKind::SetPlayerRotation,
        ServerPacketKind::ConfirmTeleportation,
        ServerPacketKind::PlayerCommand,
    ];
    let states = [
        ConnectionState::Handshake,
        ConnectionState::Status,
        ConnectionState::Login,
        ConnectionState::Configuration,
        ConnectionState::Play,
    ];
    let expected_ids = [
        0x00, 0x00, 0x01, 0x00, 0x01, 0x03, 0x00, 0x02, 0x03, 0x14, 0x06, 0x16, 0x17, 0x18, 0x00,
        0x21,
    ];
    for (kind, id) in all.iter().zip(expected_ids) {
        assert_eq!(kind.id(), id);
    }
    for state in states {
        for id in 0..=0x30u8 {
            // a frame long enough for the fields of any packet
            let mut frame = vec![id];
            frame.extend_from_slice(&[0; 64]);
            let known = all.iter().find(|kind| kind.id() == id && kind.state() == state);
            match (parse_packet(&frame, state), known) {
                (Ok(packet), Some(kind)) => assert_eq!(packet.kind(), *kind),
                (Err(ProtError::UnknownPacket(got, at)), None) => {
                    assert_eq!(got, VarInt { value: id as i32 });
                    assert_eq!(at, state);
                }
                (other, known) => panic!("unexpected {:?} for {:?}", other, known),
            }
        }
    }
    assert_eq!(server::PlayKeepAlive::id(), 0x14);
    assert_eq!(client::PlayKeepAlive::id(), 0x24);
}

#[test]
fn frames_that_are_cut_off_are_errors_of_the_codec() {
    match parse_packet(&[], ConnectionState::Status) {
        Err(ProtError::Codec(CodecError::UnexpectedEnd)) => {}
        other => panic!("unexpected {:?}", other),
    }
    match parse_packet(&handshake_frame(1)[..10], ConnectionState::Handshake) {
        Err(ProtError::Codec(CodecError::UnexpectedEnd)) => {}
        other => panic!("unexpected {:?}", other),
    }
    match parse_packet(&[0x01, 1, 2, 3], ConnectionState::Status) {
        Err(ProtError::Codec(CodecError::UnexpectedEnd)) => {}
        other => panic!("unexpected {:?}", other),
    }
    match parse_packet(&[0x00, 2, 0xc3, 0x28], ConnectionState::Login) {
        Err(ProtError::Codec(CodecError::InvalidUtf8)) => {}
        other => panic!("unexpected {:?}", other),
    }
    match parse_packet(&[0x80, 0x80, 0x80, 0x80, 0x80, 0x00], ConnectionState::Login) {
        Err(ProtError::Codec(CodecError::VarIntTooBig)) => {}
        other => panic!("unexpected {:?}", other),
    }
}

#[test]
fn login_start_leaves_its_tail_aside() {
    let mut frame = vec![0x00, 5];
    frame.extend_from_slice(b"Alice");
    frame.extend_from_slice(&[0xab; 16]);
    match parse_packet(&frame, ConnectionState::Login).unwrap() {
        ServerPackets::LoginStart(packet) => assert_eq!(packet.name, "Alice"),
        other => panic!("unexpected {:?}", other),
    }
}

#[test]
fn play_packets_are_read_field_by_field() {
    let mut frame = vec![0x17];
    frame.extend_from_slice(&1.5f64.to_be_bytes());
    frame.extend_from_slice(&(-64.0f64).to_be_bytes());
    frame.extend_from_slice(&1e10f64.to_be_bytes());
    frame.extend_from_slice(&90.0f32.to_be_bytes());
    frame.extend_from_slice(&(-45.0f32).to_be_bytes());
    frame.push(1);
    match parse_packet(&frame, ConnectionState::Play).unwrap() {
        ServerPackets::SetPlayerPositionAndRotation(packet) => {
            assert_eq!(f64::from_bits(packet.x.bits), 1.5);
            assert_eq!(f64::from_bits(packet.y.bits), -64.0);
            assert_eq!(f64::from_bits(packet.z.bits), 1e10);
            assert_eq!(f32::from_bits(packet.yaw.bits), 90.0);
            assert_eq!(f32::from_bits(packet.pitch.bits), -45.0);
            assert!(packet.on_ground);
        }
        other => panic!("unexpected {:?}", other),
    }
    let mut frame = vec![0x06];
    frame.extend_from_slice(&[0x11; 16]);
    frame.extend_from_slice(&5i64.to_be_bytes());
    frame.extend_from_slice(&[2, 1, 2, 3, 4, 5, 6]);
    match parse_packet(&frame, ConnectionState::Play).unwrap() {
        ServerPackets::PlayerSession(packet) => {
            assert_eq!(packet.session_id.value, u128::from_be_bytes([0x11; 16]));
            assert_eq!(packet.key_expires_at, 5);
            assert_eq!(packet.key.vec, vec![1, 2]);
            assert_eq!(packet.key_signature.vec, vec![4, 5, 6]);
        }
        other => panic!("unexpected {:?}", other),
    }
    match parse_packet(&[0x00, 0, 8, 1, 1, 0x7f, 1, 0, 1], ConnectionState::Configuration).unwrap()
    {
        ServerPackets::ClientInfo(packet) => {
            assert_eq!(packet.locale, "");
            assert_eq!(packet.view_distance, 8);
            assert_eq!(packet.chat_mode.value, 1);
            assert!(packet.chat_colors);
            assert_eq!(packet.displayed_skin_parts, 0x7f);
            assert_eq!(packet.main_hand.value, 1);
            assert!(!packet.enable_text_filtering);
            assert!(packet.allow_server_listings);
        }
        other => panic!("unexpected {:?}", other),
    }
    match parse_packet(&[0x21, 1, 2, 3], ConnectionState::Play).unwrap() {
        ServerPackets::PlayerCommand(packet) => {
            assert_eq!((packet.entity.value, packet.action.value, packet.jump_boost.value), (1, 2, 3));
        }
        other => panic!("unexpected {:?}", other),
    }
}

#[test]
fn handshake_chooses_the_next_state() {
    let assets = assets(false);
    for (next, state) in [(1, ConnectionState::Status), (2, ConnectionState::Login)] {
        let mut connection = ConnectionInfo::new();
        let packet = parse_packet(&handshake_frame(next), connection.state()).unwrap();
        assert!(packets(handle(&packet, &mut connection, &assets)).is_empty());
        assert_eq!(connection.state(), state);
    }
    for next in [0u8, 3, 4, 0x7f] {
        let mut connection = ConnectionInfo::new();
        let packet = parse_packet(&handshake_frame(next), connection.state()).unwrap();
        match handle(&packet, &mut connection, &assets) {
            Err(ProtError::InvalidNextState(state)) => assert_eq!(state.value, next as i32),
            _ => panic!("next state {} was taken", next),
        }
        assert_eq!(connection.state(), ConnectionState::Handshake);
        assert!(!connection.closed());
    }
}

#[test]
fn status_ping() {
    let assets = assets(true);
    let mut connection = ConnectionInfo::new();
    // 0x10, then the handshake
    let wire = {
        let mut wire = vec![0x10];
        wire.extend_from_slice(&handshake_frame(1));
        wire.extend_from_slice(&[0x01, 0x00]);
        wire
    };
    assert_eq!(length_prefix(&wire[..1]), LengthStep::Length(16));
    match reader_step(Some(&wire[1..17]), &mut connection, &assets) {
        ReaderStep::Forward(Reply::Packets(packets)) => assert!(packets.is_empty()),
        _ => panic!("the handshake was not taken"),
    }
    assert_eq!(connection.state(), ConnectionState::Status);
    assert_eq!(length_prefix(&wire[17..18]), LengthStep::Length(1));
    let answer = match reader_step(Some(&wire[18..19]), &mut connection, &assets) {
        ReaderStep::Forward(Reply::Packets(packets)) => packets,
        _ => panic!("the request was not taken"),
    };
    assert_eq!(answer.len(), 1);
    match &answer[0] {
        ClientPackets::StatusRes(res) => assert_eq!(res.json, assets.motd),
        other => panic!("unexpected {:?}", other),
    }
    let sent = outgoing(&answer[0], &mut connection).unwrap();
    let mut expected = vec![(2 + assets.motd.len()) as u8, 0x00, assets.motd.len() as u8];
    expected.extend_from_slice(assets.motd.as_bytes());
    assert_eq!(sent, expected);
    // the ping comes back as it went
    let mut ping = vec![0x01];
    ping.extend_from_slice(&0x0123456789abcdefi64.to_be_bytes());
    let answer = packets(accept_packet(&ping, &mut connection, &assets));
    assert_eq!(
        outgoing(&answer[0], &mut connection).unwrap(),
        vec![9, 0x01, 0x01, 0x23, 0x45, 0x67, 0x89, 0xab, 0xcd, 0xef]
    );
    assert_eq!(connection.state(), ConnectionState::Status);
}

#[test]
fn offline_login() {
    let assets = assets(false);
    let mut connection = ConnectionInfo::new();
    packets(accept_packet(&handshake_frame(2), &mut connection, &assets));
    assert_eq!(connection.state(), ConnectionState::Login);
    let mut frame = vec![0x00, 5];
    frame.extend_from_slice(b"Alice");
    frame.extend_from_slice(&[0; 16]);
    let answer = packets(accept_packet(&frame, &mut connection, &assets));
    assert_eq!(answer.len(), 1);
    match &answer[0] {
        ClientPackets::LoginSuccess(res) => {
            assert_eq!(res.uuid, name_uuid(String::from("OfflinePlayer:Alice")));
            assert_eq!(res.uuid, name_uuid(offline_name("Alice")));
            assert_eq!(res.username, "Alice");
            assert_eq!(res.num_properties, VarInt { value: 0 });
        }
        other => panic!("unexpected {:?}", other),
    }
    assert_eq!(connection.username, "Alice");
    assert_eq!(connection.verify_token.len(), 4);
    assert_eq!(connection.state(), ConnectionState::Login);
    // the client acknowledges and is sent the registries
    let answer = packets(accept_packet(&[0x03], &mut connection, &assets));
    assert_eq!(connection.state(), ConnectionState::Configuration);
    assert_eq!(
        outgoing(&answer[0], &mut connection).unwrap(),
        vec![8, 0x05, 10, 1, 0, 1, b'r', 7, 0]
    );
}

#[test]
fn online_login_asks_for_encryption() {
    let assets = assets(true);
    let mut connection = in_state(ConnectionState::Login);
    let packet = ServerPackets::LoginStart(server::LoginStart { name: String::from("Bob") });
    let answer = packets(handle_with(&packet, &mut connection, &assets, dice()));
    assert_eq!(connection.username, "Bob");
    assert_eq!(connection.verify_token, vec![9, 8, 7, 6]);
    match &answer[0] {
        ClientPackets::EncryptionReq(req) => {
            assert_eq!(req.server_id, "");
            assert_eq!(req.public_key.vec, assets.pub_key);
            assert_eq!(req.verify_token.vec, vec![9, 8, 7, 6]);
        }
        other => panic!("unexpected {:?}", other),
    }
}

fn sealed(assets: &Assets, plain: &[u8]) -> SizedVec<u8> {
    let mut out = vec![0u8; assets.key.size() as usize];
    let count = assets.key.public_encrypt(plain, &mut out, Padding::PKCS1).unwrap();
    out.truncate(count);
    SizedVec { vec: out }
}

#[test]
fn encrypted_handshake() {
    let assets = assets(true);
    let mut connection = in_state(ConnectionState::Login);
    let start = ServerPackets::LoginStart(server::LoginStart { name: String::from("Bob") });
    packets(handle(&start, &mut connection, &assets));
    let token = connection.verify_token.clone();
    let secret = [0x5au8; 16];
    let response = ServerPackets::EncryptionResponse(server::EncryptionResponse {
        shared_secret: sealed(&assets, &secret),
        verify_token: sealed(&assets, &token),
    });
    match handle(&response, &mut connection, &assets) {
        Ok(Reply::Authenticate { username, server_id }) => {
            assert_eq!(username, "Bob");
            assert_eq!(server_id, compute_server_hash(&assets.pub_key, &secret));
        }
        _ => panic!("the response was not taken"),
    }
    assert!(connection.encrypter.is_some() && connection.decrypter.is_some());
    assert_eq!(connection.state(), ConnectionState::Login);
    assert_eq!(connection.verify_token, token);

    // the session server answers, and the player is let in
    let answer = packets(finish_login("4566e69fc90748ee8d71d7ba5aa00d20", &mut connection));
    match &answer[0] {
        ClientPackets::LoginSuccess(res) => {
            assert_eq!(res.uuid.value, 0x4566e69f_c907_48ee_8d71_d7ba5aa00d20);
            assert_eq!(res.username, "Bob");
        }
        other => panic!("unexpected {:?}", other),
    }

    // from now on everything that is sent is encrypted
    let sent = outgoing(&answer[0], &mut connection).unwrap();
    let frame = answer[0].framed().unwrap();
    assert_ne!(sent, frame);
    let mut theirs =
        Crypter::new(Cipher::aes_128_cfb8(), Mode::Decrypt, &secret, Some(&secret)).unwrap();
    let mut plain = vec![0u8; sent.len() + 16];
    let count = theirs.update(&sent, &mut plain).unwrap();
    plain.truncate(count);
    assert_eq!(plain, frame);

    // and everything that is received: the length comes out byte by byte
    let mut ours =
        Crypter::new(Cipher::aes_128_cfb8(), Mode::Encrypt, &secret, Some(&secret)).unwrap();
    let mut clear = vec![0xdd, 0xc7, 0x01];
    clear.extend_from_slice(&[0x03]);
    let mut wire = vec![0u8; clear.len() + 16];
    let count = ours.update(&clear, &mut wire).unwrap();
    wire.truncate(count);
    let mut gathered = Vec::new();
    let mut steps = Vec::new();
    for byte in &wire[..3] {
        gathered.extend_from_slice(&incoming(&[*byte], &mut connection).unwrap());
        steps.push(length_prefix(&gathered));
    }
    assert_eq!(
        steps,
        vec![LengthStep::NeedMore, LengthStep::NeedMore, LengthStep::Length(25565)]
    );
    assert_eq!(incoming(&wire[3..], &mut connection).unwrap(), vec![0x03]);
}

#[test]
fn a_wrong_verify_token_ends_the_connection() {
    let assets = assets(true);
    let mut connection = in_state(ConnectionState::Login);
    connection.verify_token = vec![1, 2, 3, 4];
    let response = ServerPackets::EncryptionResponse(server::EncryptionResponse {
        shared_secret: sealed(&assets, &[0x5a; 16]),
        verify_token: sealed(&assets, &[1, 2, 3, 5]),
    });
    let frame = {
        let mut frame = vec![0x01];
        match &response {
            ServerPackets::EncryptionResponse(packet) => {
                packet.shared_secret.write(&mut frame);
                packet.verify_token.write(&mut frame);
            }
            _ => {}
        }
        frame
    };
    match handle(&response, &mut connection, &assets) {
        Err(ProtError::VerifyTokenMismatch) => {}
        _ => panic!("the token was taken"),
    }
    assert!(connection.encrypter.is_none());
    match reader_step(Some(&frame), &mut connection, &assets) {
        ReaderStep::Stop => {}
        _ => panic!("the reader goes on"),
    }
    assert!(connection.closed());
}

#[test]
fn encryption_is_decided_by_what_was_decrypted() {
    let assets = assets(true);
    let fresh = || {
        let mut connection = in_state(ConnectionState::Login);
        connection.verify_token = vec![1, 2, 3, 4];
        connection.username = String::from("Bob");
        connection
    };
    let ciphers = || rustcraft::encryption::make_ciphers(&[7u8; 16]);
    let mut connection = fresh();
    match encryption_decided(None, Some(vec![7; 16]), ciphers(), &mut connection, &assets) {
        Err(e @ ProtError::Any(_)) => assert!(!e.is_fatal()),
        _ => panic!("a token that is not there was taken"),
    }
    match encryption_decided(
        Some(vec![1, 2, 3]),
        Some(vec![7; 16]),
        ciphers(),
        &mut connection,
        &assets,
    ) {
        Err(e @ ProtError::VerifyTokenMismatch) => assert!(e.is_fatal()),
        _ => panic!("a short token was taken"),
    }
    match encryption_decided(Some(vec![1, 2, 3, 4]), None, None, &mut connection, &assets) {
        Err(ProtError::Any(_)) => {}
        _ => panic!("a secret that is not there was taken"),
    }
    match encryption_decided(
        Some(vec![1, 2, 3, 4]),
        Some(vec![7; 3]),
        None,
        &mut connection,
        &assets,
    ) {
        Err(ProtError::Any(_)) => {}
        _ => panic!("a secret that is no key was taken"),
    }
    assert!(connection.encrypter.is_none() && connection.decrypter.is_none());
    match encryption_decided(
        Some(vec![1, 2, 3, 4]),
        Some(vec![7; 16]),
        ciphers(),
        &mut connection,
        &assets,
    ) {
        Ok(Reply::Authenticate { username, server_id }) => {
            assert_eq!(username, "Bob");
            assert_eq!(server_id, compute_server_hash(&assets.pub_key, &[7; 16]));
        }
        _ => panic!("the response was not taken"),
    }
    assert!(connection.encrypter.is_some() && connection.decrypter.is_some());
    match finish_login("no uuid", &mut connection) {
        Err(ProtError::Any(_)) => {}
        _ => panic!("the answer was taken"),
    }
    assert!(same_bytes(&[1, 2], &[1, 2]));
    assert!(!same_bytes(&[1, 2], &[1, 3]));
    assert!(!same_bytes(&[1, 2], &[1, 2, 3]));
}

#[test]
fn configuration_leads_to_play() {
    let assets = assets(false);
    let mut connection = in_state(ConnectionState::Configuration);
    let answer = packets(accept_packet(&[0x00, 0, 8, 1, 1, 0x7f, 1, 0, 1], &mut connection, &assets));
    assert_eq!(outgoing(&answer[0], &mut connection).unwrap(), vec![1, 0x02]);
    assert_eq!(connection.state(), ConnectionState::Configuration);
    let answer = packets(accept_packet(&[0x02], &mut connection, &assets));
    assert_eq!(connection.state(), ConnectionState::Play);
    assert_eq!(answer.len(), 1);
    let login = match &answer[0] {
        ClientPackets::PlayLogin(login) => login,
        other => panic!("unexpected {:?}", other),
    };
    assert_eq!(login.dimension_names.vec, vec!["world"]);
    assert_eq!(login.dimension_type, "minecraft:overworld");
    assert!(!login.has_death_location && login.death_location.is_none());
    let mut expected = vec![0, 0, 0, 0, 0, 1, 5];
    expected.extend_from_slice(b"world");
    expected.extend_from_slice(&[2, 5, 3, 0, 0, 0, 19]);
    expected.extend_from_slice(b"minecraft:overworld");
    expected.push(19);
    expected.extend_from_slice(b"minecraft:overworld");
    expected.extend_from_slice(&[0; 8]);
    expected.extend_from_slice(&[0, 0, 0, 0, 0, 0]);
    let mut framed = vec![expected.len() as u8 + 1, 0x29];
    framed.extend_from_slice(&expected);
    assert_eq!(outgoing(&answer[0], &mut connection).unwrap(), framed);
}

#[test]
fn conditional_fields_travel_only_when_they_are_there() {
    let login = |has: bool| client::PlayLogin {
        entity_id: 7,
        is_hardcore: true,
        dimension_names: SizedVec { vec: vec![] },
        max_players: VarInt { value: 1 },
        view_distance: VarInt { value: 2 },
        simulation_distance: VarInt { value: 3 },
        reduced_debug_info: false,
        enable_respawn_screen: true,
        do_limited_crafting: false,
        dimension_type: String::from("t"),
        dimension_name: String::from("n"),
        hashed_seed: -1,
        game_mode: 1,
        previous_game_mode: 255,
        is_debug: false,
        is_flat: true,
        has_death_location: has,
        death_dimension_name: if has { Some(String::from("d")) } else { None },
        death_location: if has { Some(Position::new(1, 2, 3)) } else { None },
        portal_cooldown: VarInt { value: 9 },
    };
    let without = login(false);
    let with = login(true);
    assert!(without.is_valid() && with.is_valid());
    assert_eq!(with.prot_size(), without.prot_size() + 2 + 8);
    let mut a = Vec::new();
    without.write(&mut a);
    let mut b = Vec::new();
    with.write(&mut b);
    assert_eq!(a.len(), without.prot_size());
    assert_eq!(b.len(), with.prot_size());
    assert_eq!(a[a.len() - 2..], [0, 9]);
    assert_eq!(b[b.len() - 12..b.len() - 9], [1, 1, b'd']);
    assert_eq!(b[b.len() - 1], 9);
    // a flag that does not go with what is there is not admitted
    let broken = client::PlayLogin { has_death_location: true, ..login(false) };
    assert!(!broken.is_valid());
    assert!(ClientPackets::PlayLogin(broken).framed().is_none());
    let broken = client::PlayLogin { has_death_location: false, ..login(true) };
    assert!(!broken.is_valid());
    let message = client::DisguisedChatMessage::new(
        Chat::new_text(String::from("hi")),
        VarInt { value: 0 },
        Chat::new_text(String::from("Server")),
        false,
        None,
    );
    let mut out = Vec::new();
    message.write(&mut out);
    let mut expected = vec![13];
    expected.extend_from_slice(b"{\"text\":\"hi\"}");
    expected.extend_from_slice(&[0, 17]);
    expected.extend_from_slice(b"{\"text\":\"Server\"}");
    expected.push(0);
    assert_eq!(out, expected);
    let event = ClientPackets::SendGameEvent(client::SendGameEvent::new(GameEvent::StartRain));
    assert_eq!(event.framed().unwrap(), vec![6, 0x20, 1, 0, 0, 0, 0]);
}

#[test]
fn frames_carry_their_length_and_their_id() {
    let mut out = vec![0xee];
    write_frame(0x70, &[1, 2, 3], &mut out);
    assert_eq!(out, vec![0xee, 4, 0x70, 1, 2, 3]);
    // an id from 128 on takes two bytes, and so does a length
    let mut out = Vec::new();
    write_frame(0x80, &[0; 130], &mut out);
    assert_eq!(&out[..4], &[0x84, 0x01, 0x80, 0x01]);
    assert_eq!(out.len(), 4 + 130);
    let packet = ClientPackets::SetCenterChunk(client::SetCenterChunk::new(
        VarInt { value: -1 },
        VarInt { value: 300 },
    ));
    assert_eq!(packet.id(), 0x50);
    assert!(packet.is_valid());
    let framed = packet.framed().unwrap();
    assert_eq!(framed, vec![8, 0x50, 0xff, 0xff, 0xff, 0xff, 0x0f, 0xac, 0x02]);
    let mut out = vec![1];
    packet.write(&mut out);
    assert_eq!(&out[1..], &framed[..]);
    let mut fields = Vec::new();
    packet.write_fields(&mut fields);
    assert_eq!(fields, &framed[2..]);
    let ids: Vec<u8> = vec![
        client::StatusRes::id(),
        client::PingRes::id(),
        client::EncryptionReq::id(),
        client::LoginSuccess::id(),
        client::ConfigurationKeepAlive::id(),
        client::ConfigurationFinish::id(),
        client::RegistryData::id(),
        client::PlayLogin::id(),
        client::PlayKeepAlive::id(),
        client::SetHeldItem::id(),
        client::UpdateRecipes::id(),
        client::UpdateTags::id(),
        client::SynchronizePlayerPosition::id(),
        client::ChunkDataAndUpdateLight::id(),
        client::SetCenterChunk::id(),
        client::SetDefaultSpawnPosition::id(),
        client::DisguisedChatMessage::id(),
        client::SendGameEvent::id(),
        client::BlockUpdate::id(),
    ];
    assert_eq!(
        ids,
        vec![
            0x00, 0x01, 0x01, 0x02, 0x03, 0x02, 0x05, 0x29, 0x24, 0x4f, 0x6f, 0x70, 0x3e, 0x25,
            0x50, 0x52, 0x1c, 0x20, 0x09
        ]
    );
}

#[test]
fn configuration_keepalive() {
    let assets = assets(false);
    let mut connection = in_state(ConnectionState::Configuration);
    let beat = match heartbeat_with(&mut connection, 0x1122334455667788, false) {
        HeartbeatStep::Send(beat) => beat,
        other => panic!("unexpected {:?}", other),
    };
    assert_eq!(connection.keep_alive_id, 0x1122334455667788);
    assert_eq!(
        outgoing(&beat, &mut connection).unwrap(),
        vec![9, 0x03, 0x11, 0x22, 0x33, 0x44, 0x55, 0x66, 0x77, 0x88]
    );
    // the same id is accepted
    let mut answer = vec![0x03];
    answer.extend_from_slice(&0x1122334455667788i64.to_be_bytes());
    match reader_step(Some(&answer), &mut connection, &assets) {
        ReaderStep::Forward(Reply::Packets(packets)) => assert!(packets.is_empty()),
        _ => panic!("the answer was not taken"),
    }
    assert!(!connection.closed());
    // any other id closes the connection
    let mut answer = vec![0x03];
    answer.extend_from_slice(&0x1122334455667789i64.to_be_bytes());
    match accept_packet(&answer, &mut connection, &assets) {
        Err(ProtError::KeepAliveIdMismatch(expected, got)) => {
            assert_eq!(expected, 0x1122334455667788);
            assert_eq!(got, 0x1122334455667789);
        }
        _ => panic!("the answer was taken"),
    }
    assert!(!connection.closed());
    match reader_step(Some(&answer), &mut connection, &assets) {
        ReaderStep::Stop => {}
        _ => panic!("the reader goes on"),
    }
    assert!(connection.closed());
    // a closed connection has no heartbeat, and nothing is read from it
    assert!(matches!(heartbeat_with(&mut connection, 5, true), HeartbeatStep::Stop));
    assert!(matches!(heartbeat_with(&mut connection, 5, false), HeartbeatStep::Stop));
    assert_eq!(connection.keep_alive_id, 0x1122334455667788);
    match reader_step(Some(&[0x02]), &mut connection, &assets) {
        ReaderStep::Stop => {}
        _ => panic!("the reader goes on"),
    }
    assert_eq!(connection.state(), ConnectionState::Configuration);
}

#[test]
fn heartbeat_follows_the_state() {
    let mut connection = in_state(ConnectionState::Play);
    match heartbeat_with(&mut connection, -7, true) {
        HeartbeatStep::Send(ClientPackets::PlayKeepAlive(packet)) => assert_eq!(packet.id, -7),
        other => panic!("unexpected {:?}", other),
    }
    let assets = assets(false);
    let mut answer = vec![0x14];
    answer.extend_from_slice(&(-7i64).to_be_bytes());
    assert!(packets(accept_packet(&answer, &mut connection, &assets)).is_empty());
    for state in [ConnectionState::Handshake, ConnectionState::Status, ConnectionState::Login] {
        // before the configuration the heart waits and keeps nothing
        let mut connection = in_state(state);
        assert!(matches!(heartbeat_with(&mut connection, 3, false), HeartbeatStep::Skip));
        assert_eq!(connection.keep_alive_id, 0);
        // a state that was left ends the task
        assert!(matches!(heartbeat_with(&mut connection, 3, true), HeartbeatStep::Stop));
        assert_eq!(connection.keep_alive_id, 0);
    }
    // a login slower than a beat still gets its keepalive
    let mut connection = in_state(ConnectionState::Login);
    assert!(matches!(run_heartbeat(&mut connection, false), HeartbeatStep::Skip));
    connection.set_state(ConnectionState::Configuration);
    match heartbeat_with(&mut connection, 11, false) {
        HeartbeatStep::Send(ClientPackets::ConfigurationKeepAlive(packet)) => {
            assert_eq!(packet.id, 11)
        }
        other => panic!("unexpected {:?}", other),
    }
    let mut connection = in_state(ConnectionState::Play);
    let first = run_heartbeat(&mut connection, true);
    match first {
        HeartbeatStep::Send(ClientPackets::PlayKeepAlive(packet)) => {
            assert_eq!(packet.id, connection.keep_alive_id)
        }
        other => panic!("unexpected {:?}", other),
    }
}

#[test]
fn drawn_teleport_ids_are_not_zero() {
    for _ in 0..64 {
        assert_ne!(Dice::roll().teleport_id, 0);
        assert_eq!(Dice::roll().token.len(), 4);
    }
    let assets = assets(false);
    let mut connection = in_state(ConnectionState::Play);
    let session = ServerPackets::PlayerSession(server::PlayerSession {
        session_id: Uuid::nil(),
        key_expires_at: 0,
        key: SizedVec { vec: vec![] },
        key_signature: SizedVec { vec: vec![] },
    });
    let answer = packets(handle(&session, &mut connection, &assets));
    assert_ne!(connection.teleport_id.value, 0);
    match &answer[2] {
        ClientPackets::SynchronizePlayerPosition(packet) => {
            assert_eq!(packet.teleport_id, connection.teleport_id)
        }
        other => panic!("unexpected {:?}", other),
    }
}

#[test]
fn teleport_dance() {
    let assets = assets(false);
    let mut connection = in_state(ConnectionState::Play);
    let session = ServerPackets::PlayerSession(server::PlayerSession {
        session_id: Uuid::nil(),
        key_expires_at: 0,
        key: SizedVec { vec: vec![] },
        key_signature: SizedVec { vec: vec![] },
    });
    let answer = packets(handle_with(&session, &mut connection, &assets, dice()));
    assert_eq!(connection.teleport_id, VarInt { value: 1234 });
    assert_eq!(answer.len(), 3);
    assert_eq!(answer[0].framed().unwrap(), vec![2, 0x4f, 0]);
    assert_eq!(answer[1].framed().unwrap(), vec![2, 0x6f, 0]);
    let mut expected = vec![36, 0x3e];
    expected.extend_from_slice(&[0; 8 * 3 + 4 * 2 + 1]);
    expected.extend_from_slice(&[0xd2, 0x09]);
    assert_eq!(answer[2].framed().unwrap(), expected);

    // the wrong id is an error that ends the connection and sends nothing
    match accept_packet(&[0x00, 0xd3, 0x09], &mut connection, &assets) {
        Err(e @ ProtError::TeleportIdMismatch(..)) => {
            assert!(e.is_fatal());
            match e {
                ProtError::TeleportIdMismatch(expected, got) => {
                    assert_eq!(expected.value, 1234);
                    assert_eq!(got.value, 1235);
                }
                _ => {}
            }
        }
        _ => panic!("the confirmation was taken"),
    }

    // the right id brings the world
    let answer = packets(accept_packet(&[0x00, 0xd2, 0x09], &mut connection, &assets));
    assert_eq!(answer.len(), 51);
    match &answer[0] {
        ClientPackets::SetDefaultSpawnPosition(spawn) => {
            assert_eq!(spawn.location, Position::new(0, 0, 0));
            assert_eq!(spawn.angle, Float { bits: 0 });
        }
        other => panic!("unexpected {:?}", other),
    }
    match &answer[1] {
        ClientPackets::SetCenterChunk(centre) => {
            assert_eq!((centre.x.value, centre.y.value), (0, 0));
        }
        other => panic!("unexpected {:?}", other),
    }
    let column = get_chunks();
    let mut at = 2;
    for x in -3..=3 {
        for z in -3..=3 {
            match &answer[at] {
                ClientPackets::ChunkDataAndUpdateLight(chunk) => {
                    assert_eq!((chunk.chunk_x, chunk.chunk_z), (x, z));
                    assert_eq!(chunk.heightmaps.as_bytes(), &[10, 0]);
                    assert_eq!(chunk.data.vec, column);
                    assert!(chunk.block_entities.vec.is_empty());
                    assert!(chunk.sky_light_mask.0.vec.is_empty());
                    assert!(chunk.block_light_mask.0.vec.is_empty());
                    assert!(chunk.empty_sky_light_mask.0.vec.is_empty());
                    assert!(chunk.empty_block_light_mask.0.vec.is_empty());
                    assert!(chunk.sky_lights.vec.is_empty());
                    assert!(chunk.block_lights.vec.is_empty());
                }
                other => panic!("unexpected {:?}", other),
            }
            assert!(answer[at].framed().is_some());
            at += 1;
        }
    }
    assert_eq!(connection.state(), ConnectionState::Play);
}

#[test]
fn the_first_column_is_24_sections_of_block_8_with_a_stone() {
    let mut section = ChunkSection::new();
    section.fill(8);
    section.set_block(Position::new(5, 5, 5), 1).unwrap();
    let mut one = Vec::new();
    section.write(&mut one);
    assert_eq!(&one[..7], &[0x10, 0x00, 4, 3, 0, 8, 1]);
    let column = get_chunks();
    assert_eq!(column.len(), 24 * one.len());
    for part in column.chunks(one.len()) {
        assert_eq!(part, &one[..]);
    }
}

#[test]
fn moves_are_kept() {
    let assets = assets(false);
    let mut connection = in_state(ConnectionState::Play);
    let bits = |v: f64| Double { bits: v.to_bits() };
    let angle = |v: f32| Float { bits: v.to_bits() };
    let both = ServerPackets::SetPlayerPositionAndRotation(server::SetPlayerPositionAndRotation {
        x: bits(1.0),
        y: bits(2.0),
        z: bits(3.0),
        yaw: angle(4.0),
        pitch: angle(5.0),
        on_ground: true,
    });
    assert!(packets(handle(&both, &mut connection, &assets)).is_empty());
    assert_eq!(
        connection.position,
        PosRotGround {
            x: bits(1.0),
            y: bits(2.0),
            z: bits(3.0),
            pitch: angle(5.0),
            yaw: angle(4.0),
            on_ground: true
        }
    );
    let place = ServerPackets::SetPlayerPosition(server::SetPlayerPosition {
        x: bits(-1.0),
        y: bits(-2.0),
        z: bits(-3.0),
        on_ground: false,
    });
    packets(handle(&place, &mut connection, &assets));
    assert_eq!(
        connection.position,
        PosRotGround {
            x: bits(-1.0),
            y: bits(-2.0),
            z: bits(-3.0),
            pitch: angle(5.0),
            yaw: angle(4.0),
            on_ground: false
        }
    );
    let look = ServerPackets::SetPlayerRotation(server::SetPlayerRotation {
        yaw: angle(90.0),
        pitch: angle(-90.0),
        on_ground: true,
    });
    packets(handle(&look, &mut connection, &assets));
    assert_eq!(
        connection.position,
        PosRotGround {
            x: bits(-1.0),
            y: bits(-2.0),
            z: bits(-3.0),
            pitch: angle(-90.0),
            yaw: angle(90.0),
            on_ground: true
        }
    );
    let command = ServerPackets::PlayerCommand(server::PlayerCommand {
        entity: VarInt { value: 1 },
        action: VarInt { value: 0 },
        jump_boost: VarInt { value: 0 },
    });
    assert!(packets(handle(&command, &mut connection, &assets)).is_empty());
    connection.username = String::from("Carol");
    connection.uuid = Uuid::from_u128(77);
    let info = player_info(&connection);
    assert_eq!(info.username, "Carol");
    assert_eq!(info.uuid, Uuid::from_u128(77));
    assert_eq!(info.position, connection.position);
}

#[test]
fn the_reader_passes_over_what_does_not_end_the_connection() {
    let assets = assets(false);
    let mut connection = in_state(ConnectionState::Play);
    match reader_step(Some(&[0x7e, 1, 2, 3]), &mut connection, &assets) {
        ReaderStep::Continue => {}
        _ => panic!("an unknown packet stopped the reader"),
    }
    match reader_step(Some(&[0x14, 1]), &mut connection, &assets) {
        ReaderStep::Continue => {}
        _ => panic!("a packet cut off stopped the reader"),
    }
    assert!(!connection.closed());
    assert_eq!(connection.state(), ConnectionState::Play);
    match accept_packet(&[0x7e, 1, 2, 3], &mut connection, &assets) {
        Err(ProtError::UnknownPacket(id, state)) => {
            assert_eq!(id.value, 0x7e);
            assert_eq!(state, ConnectionState::Play);
        }
        _ => panic!("an unknown packet was taken"),
    }
    assert!(!close_if_fatal(&mut connection, &ProtError::Any(String::from("x"))));
    assert!(!connection.closed());
    assert!(close_if_fatal(&mut connection, &ProtError::ChannelClosed));
    assert!(connection.closed());
    // a peer that is gone closes the connection
    let mut connection = in_state(ConnectionState::Status);
    match reader_step(None, &mut connection, &assets) {
        ReaderStep::Stop => {}
        _ => panic!("the reader goes on"),
    }
    assert!(connection.closed());
}

#[test]
fn handshake_with_an_invalid_next_state_ends_the_connection() {
    let assets = assets(false);
    let mut connection = ConnectionInfo::new();
    match reader_step(Some(&handshake_frame(3)), &mut connection, &assets) {
        ReaderStep::Stop => {}
        _ => panic!("the reader goes on"),
    }
    assert!(connection.closed());
    assert_eq!(connection.state(), ConnectionState::Handshake);
}

#[test]
fn without_a_cipher_bytes_pass_as_they_are() {
    let mut connection = ConnectionInfo::new();
    assert_eq!(incoming(&[1, 2, 3], &mut connection), Some(vec![1, 2, 3]));
    let packet = ClientPackets::PingRes(client::PingRes::new(1));
    assert_eq!(
        outgoing(&packet, &mut connection).unwrap(),
        vec![9, 1, 0, 0, 0, 0, 0, 0, 0, 1]
    );
    let broken = ClientPackets::StatusRes(client::StatusRes::new("x".repeat(131072)));
    assert!(!broken.is_valid());
    match outgoing(&broken, &mut connection) {
        Err(e @ ProtError::Any(_)) => assert!(!e.is_fatal()),
        _ => panic!("the packet was sent"),
    }
}
