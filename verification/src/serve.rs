use crate::connection::{ConnectionInfo, ConnectionState};
use crate::encryption::transform;
use crate::err::ProtError;
use crate::nbt::NbtCompound;
use crate::packets::client;
use crate::packets::client::ClientPackets;
use crate::packets::handle::{
    confirm_teleportation_done, handle, handled, keep_alive_done, player_session_done, silent,
    Dice, Reply,
};
use crate::packets::parse::{packet_decoding, parse_packet};
use crate::packets::server;
use crate::packets::server::ServerPackets;
use crate::protocol_types::compound::{PosRotGround, Uuid};
use crate::protocol_types::primitives::VarInt;
use crate::protocol_util::random_keep_alive_id;
use base64::engine::general_purpose;
use base64::Engine;
use openssl::pkey::Private;
use openssl::rsa::Rsa;
use vstd::prelude::*;
use vstd::string::StringExecFns;

verus! {

/// The port on which the server listens.
pub const PORT: u16 = 25565;

/// The seconds between two keepalives.
pub const HEARTBEAT_SECONDS: u64 = 10;

/// How many messages the queue of a connection takes before its senders
/// have to wait.
pub const QUEUE_CAPACITY: usize = 8;

/// What every connection of a server shares and none changes.
pub struct Assets {
    /// The RSA key pair of the server.
    pub key: Rsa<Private>,
    /// The public key of the server in DER.
    pub pub_key: Vec<u8>,
    /// Whether players are checked with the session server.
    pub online: bool,
    /// The status of the server as JSON.
    pub motd: String,
    /// The registries that every client is sent.
    pub registry: NbtCompound,
}

/// The character that stands for six bits in base64: the capital letters,
/// the small letters, the digits, `+` and `/`.
pub open spec fn base64_char(v: int) -> char {
    if v < 26 {
        ('A' as u32 + v) as char
    } else if v < 52 {
        ('a' as u32 + v - 26) as char
    } else if v < 62 {
        ('0' as u32 + v - 52) as char
    } else if v == 62 {
        '+'
    } else {
        '/'
    }
}

/// The text of `data` in base64, with the standard alphabet and padding:
/// four characters for every three bytes, six bits each, and `=` where the
/// last three bytes are not all there.
pub open spec fn base64_text(data: Seq<u8>) -> Seq<char>
    decreases data.len(),
{
    if data.len() == 0 {
        Seq::empty()
    } else if data.len() == 1 {
        let n = data[0] * 65536;
        seq![base64_char(n / 262144), base64_char(n / 4096 % 64), '=', '=']
    } else if data.len() == 2 {
        let n = data[0] * 65536 + data[1] * 256;
        seq![base64_char(n / 262144), base64_char(n / 4096 % 64), base64_char(n / 64 % 64), '=']
    } else {
        let n = data[0] * 65536 + data[1] * 256 + data[2];
        seq![
            base64_char(n / 262144),
            base64_char(n / 4096 % 64),
            base64_char(n / 64 % 64),
            base64_char(n % 64),
        ] + base64_text(data.skip(3))
    }
}

/// `Engine::encode` of the standard base64 engine: `data` in base64.
#[verifier::external_body]
fn base64_encode(data: &[u8]) -> (text: String)
    ensures
        text@ == base64_text(data@),
{
    general_purpose::STANDARD.encode(data)
}

/// The status of the server: its version, its players, its description,
/// and its icon, a PNG image, inside a data URL.
pub fn status_json(icon: &[u8]) -> (json: String)
    ensures
        json@ == r#"
{
    "version": {
        "name": "1.20.2",
        "protocol": 764
    },
    "players": {
        "max": 100,
        "online": 5,
        "sample": [
            {
                "name": "thinkofdeath",
                "id": "4566e69f-c907-48ee-8d71-d7ba5aa00d20"
            }
        ]
    },
    "description": {
        "text": "made in §mogaml§rRUST §c§l(/) (°,,,,°) (/)"
    },
    "favicon": "data:image/png;base64,"#@
            + base64_text(icon@) + r#"",
    "enforcesSecureChat": true,
    "previewsChat": true
}
"#@,
{
    let head = r#"
{
    "version": {
        "name": "1.20.2",
        "protocol": 764
    },
    "players": {
        "max": 100,
        "online": 5,
        "sample": [
            {
                "name": "thinkofdeath",
                "id": "4566e69f-c907-48ee-8d71-d7ba5aa00d20"
            }
        ]
    },
    "description": {
        "text": "made in §mogaml§rRUST §c§l(/) (°,,,,°) (/)"
    },
    "favicon": "data:image/png;base64,"#;
    let tail = r#"",
    "enforcesSecureChat": true,
    "previewsChat": true
}
"#;
    let icon = base64_encode(icon);
    String::from_str(head).concat(icon.as_str()).concat(tail)
}

/// What reading a frame means for the connection: an error of the codec
/// or an id that means nothing changes nothing; a packet is handled, with
/// a token of four bytes and a teleport id other than 0 where chance is
/// called for.
pub open spec fn accepted(
    frame: Seq<u8>,
    before: ConnectionInfo,
    after: ConnectionInfo,
    assets: Assets,
    r: Result<Reply, ProtError>,
) -> bool {
    match packet_decoding(frame, before.state) {
        Err(e) => after == before && r is Err && r->Err_0 == e,
        Ok(model) => exists|packet: ServerPackets, dice: Dice| #[trigger]
            handled(packet, before, after, assets, dice, r) && packet.model() == model
                && dice.fair(),
    }
}

/// Reads the packet that `frame` holds and handles it.
pub fn accept_packet(frame: &[u8], connection: &mut ConnectionInfo, assets: &Assets) -> (r: Result<
    Reply,
    ProtError,
>)
    ensures
        accepted(frame@, *old(connection), *final(connection), *assets, r),
{
    let packet = match parse_packet(frame, connection.state()) {
        Ok(packet) => packet,
        Err(e) => {
            return Err(e);
        },
    };
    handle(&packet, connection, assets)
}

/// Closes the connection if `error` is one that ends it, and says whether
/// it did.
pub fn close_if_fatal(connection: &mut ConnectionInfo, error: &ProtError) -> (closed: bool)
    ensures
        closed == error.spec_is_fatal(),
        *final(connection) == (ConnectionInfo {
            closed: old(connection).closed || error.spec_is_fatal(),
            ..*old(connection)
        }),
{
    if error.is_fatal() {
        connection.closed = true;
        true
    } else {
        false
    }
}

/// What the task that reads is to do next.
pub enum ReaderStep {
    /// Put this reply on the queue and read on.
    Forward(Reply),
    /// Read on.
    Continue,
    /// Stop reading: the connection is closed.
    Stop,
}

/// One round of the task that reads. `frame` is the frame that has come
/// in, or nothing if the peer is gone or the socket has failed. A closed
/// connection stops the task; so does a peer that is gone, which closes the
/// connection; so does an error that ends the connection. Every other
/// error is passed over.
pub fn reader_step(frame: Option<&[u8]>, connection: &mut ConnectionInfo, assets: &Assets) -> (step:
    ReaderStep)
    ensures
        old(connection).closed ==> step is Stop && *final(connection) == *old(connection),
        !old(connection).closed && frame is None ==> step is Stop && *final(connection) == (
        ConnectionInfo { closed: true, ..*old(connection) }),
        !old(connection).closed && frame is Some ==> exists|
            middle: ConnectionInfo,
            r: Result<Reply, ProtError>,
        | #[trigger]
            accepted(frame->Some_0@, *old(connection), middle, *assets, r) && match r {
                Ok(reply) => step == ReaderStep::Forward(reply) && *final(connection) == middle,
                Err(e) => *final(connection) == (ConnectionInfo {
                    closed: e.spec_is_fatal(),
                    ..middle
                }) && if e.spec_is_fatal() {
                    step is Stop
                } else {
                    step is Continue
                },
            },
{
    if connection.closed() {
        return ReaderStep::Stop;
    }
    let frame = match frame {
        Some(frame) => frame,
        None => {
            connection.close();
            return ReaderStep::Stop;
        },
    };
    let result = accept_packet(frame, connection, assets);
    match result {
        Ok(reply) => ReaderStep::Forward(reply),
        Err(e) => {
            if close_if_fatal(connection, &e) {
                ReaderStep::Stop
            } else {
                ReaderStep::Continue
            }
        },
    }
}

/// What the task of the heart is to do after a beat.
#[derive(Debug)]
pub enum HeartbeatStep {
    /// Send this keepalive, and beat on.
    Send(ClientPackets),
    /// Send nothing, and beat on.
    Skip,
    /// Stop beating.
    Stop,
}

/// What a beat of the heart does, where `beating` says whether a beat
/// before it has sent a keepalive. A closed connection ends the task and
/// nothing changes. In the configuration and in play, `nonce` is kept as
/// the id of the keepalive last sent, and the keepalive of the state is to
/// be sent. In every other state nothing changes and nothing is sent: the
/// task ends if the state has left those that know a keepalive, and waits
/// if it has not reached them yet.
pub open spec fn heartbeat_done(
    before: ConnectionInfo,
    after: ConnectionInfo,
    nonce: i64,
    beating: bool,
    step: HeartbeatStep,
) -> bool {
    if before.closed {
        after == before && step is Stop
    } else {
        match before.state {
            ConnectionState::Configuration => {
                &&& after == (ConnectionInfo { keep_alive_id: nonce, ..before })
                &&& step == HeartbeatStep::Send(
                    ClientPackets::ConfigurationKeepAlive(
                        client::ConfigurationKeepAlive { id: nonce },
                    ),
                )
            },
            ConnectionState::Play => {
                &&& after == (ConnectionInfo { keep_alive_id: nonce, ..before })
                &&& step == HeartbeatStep::Send(
                    ClientPackets::PlayKeepAlive(client::PlayKeepAlive { id: nonce }),
                )
            },
            _ => after == before && if beating {
                step is Stop
            } else {
                step is Skip
            },
        }
    }
}

/// One beat of the heart with `keep_alive_id` as the id of the keepalive.
pub fn heartbeat_with(connection: &mut ConnectionInfo, keep_alive_id: i64, beating: bool) -> (step:
    HeartbeatStep)
    ensures
        heartbeat_done(*old(connection), *final(connection), keep_alive_id, beating, step),
{
    if connection.closed() {
        return HeartbeatStep::Stop;
    }
    match connection.state() {
        ConnectionState::Configuration => {
            connection.keep_alive_id = keep_alive_id;
            let packet = client::ConfigurationKeepAlive::new(keep_alive_id);
            HeartbeatStep::Send(ClientPackets::ConfigurationKeepAlive(packet))
        },
        ConnectionState::Play => {
            connection.keep_alive_id = keep_alive_id;
            let packet = client::PlayKeepAlive::new(keep_alive_id);
            HeartbeatStep::Send(ClientPackets::PlayKeepAlive(packet))
        },
        _ => if beating {
            HeartbeatStep::Stop
        } else {
            HeartbeatStep::Skip
        },
    }
}

/// One beat of the heart, ten seconds after the one before: what the task
/// is to do, with a fresh random id for the keepalive if one is sent.
pub fn run_heartbeat(connection: &mut ConnectionInfo, beating: bool) -> (step: HeartbeatStep)
    ensures
        exists|nonce: i64| #[trigger]
            heartbeat_done(*old(connection), *final(connection), nonce, beating, step),
{
    let keep_alive_id = random_keep_alive_id();
    heartbeat_with(connection, keep_alive_id, beating)
}

/// After a beat of the heart that sent a keepalive, the answer with the
/// same id is accepted and changes nothing, and the answer with any other
/// id is the error that names both ids.
pub proof fn lemma_keep_alive(
    before: ConnectionInfo,
    beaten: ConnectionInfo,
    nonce: i64,
    beating: bool,
    step: HeartbeatStep,
    answer: i64,
    after: ConnectionInfo,
    r: Result<Reply, ProtError>,
)
    requires
        heartbeat_done(before, beaten, nonce, beating, step),
        step is Send,
        keep_alive_done(answer, beaten, after, r),
    ensures
        after == beaten,
        answer == nonce ==> silent(r),
        answer != nonce ==> ({
            &&& r matches Err(ProtError::KeepAliveIdMismatch(expected, got))
            &&& expected == nonce
            &&& got == answer
        }),
        r is Err ==> r->Err_0.spec_is_fatal(),
{
}

/// After the chat session of a player has been handled and a teleport sent
/// under `teleport_id`, the confirmation of that id is accepted, and the
/// confirmation of any other id is the error that names both ids.
pub proof fn lemma_teleport(
    before: ConnectionInfo,
    sent: ConnectionInfo,
    teleport_id: i32,
    first: Result<Reply, ProtError>,
    answer: server::ConfirmTeleportation,
    after: ConnectionInfo,
    r: Result<Reply, ProtError>,
)
    requires
        player_session_done(before, sent, teleport_id, first),
        confirm_teleportation_done(answer, sent, after, r),
    ensures
        after == sent,
        answer.teleport_id.value == teleport_id ==> ({
            &&& r matches Ok(Reply::Packets(packets))
            &&& packets@.len() == 51
        }),
        answer.teleport_id.value != teleport_id ==> ({
            &&& r matches Err(ProtError::TeleportIdMismatch(expected, got))
            &&& expected == VarInt { value: teleport_id }
            &&& got == answer.teleport_id
        }),
        r is Err ==> r->Err_0.spec_is_fatal(),
{
}

/// What the web interface is told of a player.
#[derive(Debug)]
pub struct PlayerInfo {
    pub username: String,
    pub uuid: Uuid,
    pub position: PosRotGround,
}

/// What the connection knows of its player.
pub fn player_info(connection: &ConnectionInfo) -> (info: PlayerInfo)
    ensures
        info.username@ == connection.username@,
        info.uuid == connection.uuid,
        info.position == connection.position,
{
    PlayerInfo {
        username: connection.username.clone(),
        uuid: connection.uuid,
        position: connection.position,
    }
}

/// The bytes to put on the socket for `packet`: its frame, put through the
/// cipher if the connection has one. A packet that cannot be framed and a
/// cipher that fails are errors that end nothing. Without a cipher the
/// bytes are the frame.
pub fn outgoing(packet: &ClientPackets, connection: &mut ConnectionInfo) -> (r: Result<
    Vec<u8>,
    ProtError,
>)
    ensures
        final(connection).same_but_ciphers(old(connection)),
        final(connection).decrypter == old(connection).decrypter,
        !packet.sendable() ==> r is Err && *final(connection) == *old(connection),
        r is Err ==> !r->Err_0.spec_is_fatal(),
        old(connection).encrypter is None ==> *final(connection) == *old(connection) && (
        packet.sendable() ==> r is Ok && r->Ok_0@ == packet.spec_frame()),
        old(connection).encrypter is Some && packet.sendable() && packet.spec_frame().len()
            > 0x7fff_0000 ==> r is Err && *final(connection) == *old(connection),
{
    let frame = match packet.framed() {
        Some(frame) => frame,
        None => {
            return Err(ProtError::Any(String::from_str("the packet cannot be framed")));
        },
    };
    match &mut connection.encrypter {
        Some(encrypter) => match transform(encrypter, frame.as_slice()) {
            Some(bytes) => Ok(bytes),
            None => Err(ProtError::Any(String::from_str("the cipher failed"))),
        },
        None => Ok(frame),
    }
}

/// What `bytes` from the socket are in the clear: put through the cipher
/// if the connection has one, and as they are if it has none. A cipher
/// that fails gives nothing.
pub fn incoming(bytes: &[u8], connection: &mut ConnectionInfo) -> (r: Option<Vec<u8>>)
    ensures
        final(connection).same_but_ciphers(old(connection)),
        final(connection).encrypter == old(connection).encrypter,
        old(connection).decrypter is None ==> *final(connection) == *old(connection) && r is Some
            && r->Some_0@ == bytes@,
        old(connection).decrypter is Some && bytes@.len() > 0x7fff_0000 ==> r is None
            && *final(connection) == *old(connection),
{
    match &mut connection.decrypter {
        Some(decrypter) => transform(decrypter, bytes),
        None => Some(vstd::slice::slice_to_vec(bytes)),
    }
}

} // verus!
