use crate::chunk::section::ChunkSection;
use crate::chunk::palette::PaletteValue;
use crate::chunk::section::cell;
use crate::chunk::COLUMN_HEIGHT;
use crate::connection::{ConnectionInfo, ConnectionState};
use crate::encryption::{
    compute_server_hash, decrypt_with_key, make_ciphers, server_hash_text, Ciphers,
};
use crate::err::ProtError;
use crate::nbt::NbtCompound;
use crate::packets::client;
use crate::packets::client::ClientPackets;
use crate::packets::server;
use crate::packets::server::ServerPackets;
use crate::protocol_types::compound::{BitSet, PosRotGround, Position, Uuid};
use crate::protocol_types::primitives::append_bytes;
use crate::protocol_types::numbers::{Double, Float};
use crate::protocol_types::primitives::VarInt;
use crate::protocol_types::sequences::SizedVec;
use crate::protocol_util::{
    name_uuid, name_uuid_of, offline_name, parse_uuid, random_teleport_id, random_token,
    uuid_of_text,
};
use crate::serve::Assets;
use vstd::prelude::*;
use vstd::slice::slice_to_vec;
use vstd::string::StringExecFns;

verus! {

/// What a handler has drawn by chance.
pub struct Dice {
    /// The verify token for a login.
    pub token: Vec<u8>,
    /// The id for a teleport.
    pub teleport_id: i32,
}

impl Dice {
    /// Whether the token has four bytes and the id is not 0, as what is
    /// drawn has.
    pub open spec fn fair(&self) -> bool {
        self.token@.len() == 4 && self.teleport_id != 0
    }

    /// Draws a token of four bytes and an id other than 0.
    pub fn roll() -> (dice: Dice)
        ensures
            dice.fair(),
    {
        Dice { token: random_token(), teleport_id: random_teleport_id() }
    }
}

/// What is to be done after a packet has been handled.
pub enum Reply {
    /// Send these packets, in this order.
    Packets(Vec<ClientPackets>),
    /// Ask the session server whether `username` has joined under
    /// `server_id`, and finish the login with its answer.
    Authenticate { username: String, server_id: String },
}

/// No packet to send.
pub open spec fn silent(r: Result<Reply, ProtError>) -> bool {
    r matches Ok(Reply::Packets(packets)) && packets@.len() == 0
}

/// Exactly the packet `packet` to send.
pub open spec fn sends_one(r: Result<Reply, ProtError>, packet: ClientPackets) -> bool {
    r matches Ok(Reply::Packets(packets)) && packets@.len() == 1 && packets@[0] == packet
}

fn no_packets() -> (r: Result<Reply, ProtError>)
    ensures
        silent(r),
{
    Ok(Reply::Packets(Vec::new()))
}

fn one_packet(packet: ClientPackets) -> (r: Result<Reply, ProtError>)
    ensures
        sends_one(r, packet),
{
    let mut packets: Vec<ClientPackets> = Vec::new();
    packets.push(packet);
    Ok(Reply::Packets(packets))
}

/// What handling a handshake does: next state 1 leads to the status, 2 to
/// the login, and every other is an error that changes nothing.
pub open spec fn handshake_done(
    this: server::Handshake,
    before: ConnectionInfo,
    after: ConnectionInfo,
    r: Result<Reply, ProtError>,
) -> bool {
    if this.next_state.value == 1 {
        after == (ConnectionInfo { state: ConnectionState::Status, ..before }) && silent(r)
    } else if this.next_state.value == 2 {
        after == (ConnectionInfo { state: ConnectionState::Login, ..before }) && silent(r)
    } else {
        &&& after == before
        &&& r matches Err(ProtError::InvalidNextState(state))
        &&& state == this.next_state
    }
}

pub fn handle_handshake(this: &server::Handshake, connection: &mut ConnectionInfo) -> (r: Result<
    Reply,
    ProtError,
>)
    ensures
        handshake_done(*this, *old(connection), *final(connection), r),
{
    let state = if this.next_state.value == 1 {
        ConnectionState::Status
    } else if this.next_state.value == 2 {
        ConnectionState::Login
    } else {
        return Err(ProtError::InvalidNextState(this.next_state));
    };
    connection.state = state;
    no_packets()
}

/// What handling a status request does: the status of the server is sent.
pub open spec fn status_done(
    before: ConnectionInfo,
    after: ConnectionInfo,
    assets: Assets,
    r: Result<Reply, ProtError>,
) -> bool {
    &&& after == before
    &&& r matches Ok(Reply::Packets(packets))
    &&& packets@.len() == 1
    &&& packets@[0] matches ClientPackets::StatusRes(res)
    &&& res.json@ == assets.motd@
}

pub fn handle_status_req(connection: &mut ConnectionInfo, assets: &Assets) -> (r: Result<
    Reply,
    ProtError,
>)
    ensures
        status_done(*old(connection), *final(connection), *assets, r),
{
    let res = client::StatusRes::new(assets.motd.clone());
    one_packet(ClientPackets::StatusRes(res))
}

/// What handling a ping does: its payload is sent back.
pub open spec fn ping_done(
    this: server::PingReq,
    before: ConnectionInfo,
    after: ConnectionInfo,
    r: Result<Reply, ProtError>,
) -> bool {
    after == before && sends_one(
        r,
        ClientPackets::PingRes(client::PingRes { payload: this.payload }),
    )
}

pub fn handle_ping_req(this: &server::PingReq, connection: &mut ConnectionInfo) -> (r: Result<
    Reply,
    ProtError,
>)
    ensures
        ping_done(*this, *old(connection), *final(connection), r),
{
    let res = client::PingRes::new(this.payload);
    one_packet(ClientPackets::PingRes(res))
}

/// What handling the start of a login does: the name and a fresh token
/// are kept; an online server asks for encryption with its public key and
/// the token, an offline one lets the player in under the uuid of the name.
pub open spec fn login_start_done(
    this: server::LoginStart,
    before: ConnectionInfo,
    after: ConnectionInfo,
    assets: Assets,
    token: Seq<u8>,
    r: Result<Reply, ProtError>,
) -> bool {
    &&& after.username@ == this.name@
    &&& after.verify_token@ == token
    &&& after.state == before.state
    &&& after.closed == before.closed
    &&& after.uuid == before.uuid
    &&& after.teleport_id == before.teleport_id
    &&& after.keep_alive_id == before.keep_alive_id
    &&& after.position == before.position
    &&& after.same_ciphers(&before)
    &&& r matches Ok(Reply::Packets(packets))
    &&& packets@.len() == 1
    &&& if assets.online {
        &&& packets@[0] matches ClientPackets::EncryptionReq(res)
        &&& res.server_id@ == Seq::<char>::empty()
        &&& res.public_key.vec@ == assets.pub_key@
        &&& res.verify_token.vec@ == token
    } else {
        &&& packets@[0] matches ClientPackets::LoginSuccess(res)
        &&& res.uuid == name_uuid_of("OfflinePlayer:"@ + this.name@)
        &&& res.username@ == this.name@
        &&& res.num_properties == VarInt { value: 0 }
    }
}

pub fn handle_login_start(
    this: &server::LoginStart,
    connection: &mut ConnectionInfo,
    assets: &Assets,
    token: Vec<u8>,
) -> (r: Result<Reply, ProtError>)
    ensures
        login_start_done(*this, *old(connection), *final(connection), *assets, token@, r),
{
    connection.username = this.name.clone();
    let sent = slice_to_vec(token.as_slice());
    connection.verify_token = token;
    if assets.online {
        let res = client::EncryptionReq::new(
            String::new(),
            SizedVec { vec: slice_to_vec(assets.pub_key.as_slice()) },
            SizedVec { vec: sent },
        );
        one_packet(ClientPackets::EncryptionReq(res))
    } else {
        let res = client::LoginSuccess::new(
            name_uuid(offline_name(this.name.as_str())),
            this.name.clone(),
            VarInt { value: 0 },
        );
        one_packet(ClientPackets::LoginSuccess(res))
    }
}

/// Whether two byte strings are the same.
pub fn same_bytes(a: &[u8], b: &[u8]) -> (same: bool)
    ensures
        same == (a@ == b@),
{
    if a.len() != b.len() {
        return false;
    }
    let mut i: usize = 0;
    while i < a.len()
        invariant
            i <= a@.len(),
            a@.len() == b@.len(),
            forall|j: int| 0 <= j < i ==> a@[j] == b@[j],
        decreases a@.len() - i,
    {
        if a[i] != b[i] {
            return false;
        }
        i += 1;
    }
    assert(a@ =~= b@);
    true
}

/// What becomes of the answer to a request for encryption, once the token
/// and the secret have been decrypted and the ciphers set up. A token that
/// could not be decrypted is an error; a token other than the one sent
/// ends the connection; a secret that could not be decrypted, or that
/// OpenSSL does not take as a key, is an error. Otherwise the ciphers are
/// kept and the session server is to be asked under the hash of the login.
pub open spec fn encryption_done(
    token: Option<Vec<u8>>,
    secret: Option<Vec<u8>>,
    ciphers: Option<Ciphers>,
    before: ConnectionInfo,
    after: ConnectionInfo,
    assets: Assets,
    r: Result<Reply, ProtError>,
) -> bool {
    if token is None {
        after == before && (r matches Err(ProtError::Any(_)))
    } else if token->Some_0@ != before.verify_token@ {
        after == before && (r matches Err(ProtError::VerifyTokenMismatch))
    } else if secret is None || ciphers is None {
        after == before && (r matches Err(ProtError::Any(_)))
    } else {
        &&& after == (ConnectionInfo {
            encrypter: Some(ciphers->Some_0.encrypter),
            decrypter: Some(ciphers->Some_0.decrypter),
            ..before
        })
        &&& r matches Ok(Reply::Authenticate { username, server_id })
        &&& username@ == before.username@
        &&& server_id@ == server_hash_text(assets.pub_key@, secret->Some_0@)
    }
}

pub fn encryption_decided(
    token: Option<Vec<u8>>,
    secret: Option<Vec<u8>>,
    ciphers: Option<Ciphers>,
    connection: &mut ConnectionInfo,
    assets: &Assets,
) -> (r: Result<Reply, ProtError>)
    ensures
        encryption_done(token, secret, ciphers, *old(connection), *final(connection), *assets, r),
{
    let token_plain = match &token {
        Some(plain) => plain,
        None => {
            return Err(ProtError::Any(String::from_str("the verify token could not be decrypted")));
        },
    };
    if !same_bytes(token_plain.as_slice(), connection.verify_token.as_slice()) {
        return Err(ProtError::VerifyTokenMismatch);
    }
    let shared_secret_plain = match &secret {
        Some(plain) => plain,
        None => {
            return Err(ProtError::Any(String::from_str("the shared secret could not be decrypted")));
        },
    };
    let server_id = compute_server_hash(assets.pub_key.as_slice(), shared_secret_plain.as_slice());
    match ciphers {
        Some(ciphers) => {
            connection.encrypter = Some(ciphers.encrypter);
            connection.decrypter = Some(ciphers.decrypter);
        },
        None => {
            return Err(ProtError::Any(String::from_str("the shared secret is no key")));
        },
    }
    let username = connection.username.clone();
    Ok(Reply::Authenticate { username, server_id })
}

/// What handling the answer to a request for encryption does: what
/// `encryption_done` says of what the key of the server makes of the token
/// and of the secret, and of the ciphers made from the secret. A field too
/// long for OpenSSL to take counts as one that could not be decrypted, and
/// there are ciphers only for a secret of 16 bytes. So an error changes
/// nothing, and success changes the ciphers alone and asks for the session
/// server.
pub open spec fn encryption_response_done(
    this: server::EncryptionResponse,
    before: ConnectionInfo,
    after: ConnectionInfo,
    assets: Assets,
    r: Result<Reply, ProtError>,
) -> bool {
    exists|token: Option<Vec<u8>>, secret: Option<Vec<u8>>, ciphers: Option<Ciphers>|
        #![trigger encryption_done(token, secret, ciphers, before, after, assets, r)]
        {
            &&& encryption_done(token, secret, ciphers, before, after, assets, r)
            &&& this.verify_token.vec@.len() > i32::MAX ==> token is None
            &&& this.shared_secret.vec@.len() > i32::MAX ==> secret is None
            &&& (secret is None || secret->Some_0@.len() != 16) ==> ciphers is None
        }
}

/// However the answer to a request for encryption is decided, an error
/// changes nothing, and success changes the ciphers alone and asks for the
/// session server. A token too long to be decrypted is an error, and so is
/// a token that fits the one sent with a secret too long to be decrypted.
pub proof fn lemma_encryption_response(
    this: server::EncryptionResponse,
    before: ConnectionInfo,
    after: ConnectionInfo,
    assets: Assets,
    r: Result<Reply, ProtError>,
)
    requires
        encryption_response_done(this, before, after, assets, r),
    ensures
        r is Err ==> after == before,
        r is Ok ==> r->Ok_0 is Authenticate && after.same_but_ciphers(&before),
        this.verify_token.vec@.len() > i32::MAX || this.shared_secret.vec@.len() > i32::MAX
            ==> r is Err,
{
}

/// Handles the answer to a request for encryption: decrypts the token and
/// the secret with the key of the server, and sets up the ciphers if there
/// is a secret.
pub fn handle_encryption_response(
    this: &server::EncryptionResponse,
    connection: &mut ConnectionInfo,
    assets: &Assets,
) -> (r: Result<Reply, ProtError>)
    ensures
        encryption_response_done(*this, *old(connection), *final(connection), *assets, r),
{
    let token = decrypt_with_key(&assets.key, this.verify_token.vec.as_slice());
    let secret = decrypt_with_key(&assets.key, this.shared_secret.vec.as_slice());
    let ciphers = match &secret {
        Some(plain) => make_ciphers(plain.as_slice()),
        None => None,
    };
    encryption_decided(token, secret, ciphers, connection, assets)
}

/// What the answer of the session server leads to: the player is let in
/// under the uuid that the answer names; an answer that names none is an
/// error.
pub open spec fn login_finished(
    id: Seq<char>,
    before: ConnectionInfo,
    after: ConnectionInfo,
    r: Result<Reply, ProtError>,
) -> bool {
    &&& after == before
    &&& match uuid_of_text(id) {
        Some(value) => {
            &&& r matches Ok(Reply::Packets(packets))
            &&& packets@.len() == 1
            &&& packets@[0] matches ClientPackets::LoginSuccess(res)
            &&& res.uuid == Uuid { value }
            &&& res.username@ == before.username@
            &&& res.num_properties == VarInt { value: 0 }
        },
        None => r matches Err(ProtError::Any(_)),
    }
}

/// Finishes a login with the id that the session server has answered.
pub fn finish_login(id: &str, connection: &mut ConnectionInfo) -> (r: Result<Reply, ProtError>)
    ensures
        login_finished(id@, *old(connection), *final(connection), r),
{
    match parse_uuid(id) {
        Some(uuid) => {
            let res = client::LoginSuccess::new(
                uuid,
                connection.username.clone(),
                VarInt { value: 0 },
            );
            one_packet(ClientPackets::LoginSuccess(res))
        },
        None => Err(ProtError::Any(String::from_str("the session server named no uuid"))),
    }
}

/// What handling the acknowledgement of a login does: the configuration
/// begins and the registries are sent.
pub open spec fn login_ack_done(
    before: ConnectionInfo,
    after: ConnectionInfo,
    assets: Assets,
    r: Result<Reply, ProtError>,
) -> bool {
    &&& after == (ConnectionInfo { state: ConnectionState::Configuration, ..before })
    &&& r matches Ok(Reply::Packets(packets))
    &&& packets@.len() == 1
    &&& packets@[0] matches ClientPackets::RegistryData(res)
    &&& res.data@ == assets.registry@
}

pub fn handle_login_ack(connection: &mut ConnectionInfo, assets: &Assets) -> (r: Result<
    Reply,
    ProtError,
>)
    ensures
        login_ack_done(*old(connection), *final(connection), *assets, r),
{
    connection.state = ConnectionState::Configuration;
    let res = client::RegistryData::new(assets.registry.duplicate());
    one_packet(ClientPackets::RegistryData(res))
}

/// What handling the settings of a client does: the configuration is
/// brought to its end.
pub open spec fn client_info_done(
    before: ConnectionInfo,
    after: ConnectionInfo,
    r: Result<Reply, ProtError>,
) -> bool {
    after == before && sends_one(
        r,
        ClientPackets::ConfigurationFinish(client::ConfigurationFinish {  }),
    )
}

pub fn handle_client_info(connection: &mut ConnectionInfo) -> (r: Result<Reply, ProtError>)
    ensures
        client_info_done(*old(connection), *final(connection), r),
{
    let res = client::ConfigurationFinish::new();
    one_packet(ClientPackets::ConfigurationFinish(res))
}

/// What handling the end of the configuration does: play begins, and the
/// client is put into the overworld of a flat-out ordinary world.
pub open spec fn configuration_finish_done(
    before: ConnectionInfo,
    after: ConnectionInfo,
    r: Result<Reply, ProtError>,
) -> bool {
    &&& after == (ConnectionInfo { state: ConnectionState::Play, ..before })
    &&& r matches Ok(Reply::Packets(packets))
    &&& packets@.len() == 1
    &&& packets@[0] matches ClientPackets::PlayLogin(res)
    &&& res.entity_id == 0
    &&& !res.is_hardcore
    &&& res.dimension_names.vec@.len() == 1
    &&& res.dimension_names.vec@[0]@ == "world"@
    &&& res.max_players == VarInt { value: 2 }
    &&& res.view_distance == VarInt { value: 5 }
    &&& res.simulation_distance == VarInt { value: 3 }
    &&& !res.reduced_debug_info
    &&& !res.enable_respawn_screen
    &&& !res.do_limited_crafting
    &&& res.dimension_type@ == "minecraft:overworld"@
    &&& res.dimension_name@ == "minecraft:overworld"@
    &&& res.hashed_seed == 0
    &&& res.game_mode == 0
    &&& res.previous_game_mode == 0
    &&& !res.is_debug
    &&& !res.is_flat
    &&& !res.has_death_location
    &&& res.death_dimension_name is None
    &&& res.death_location is None
    &&& res.portal_cooldown == VarInt { value: 0 }
}

pub fn handle_configuration_finish(connection: &mut ConnectionInfo) -> (r: Result<
    Reply,
    ProtError,
>)
    ensures
        configuration_finish_done(*old(connection), *final(connection), r),
{
    connection.state = ConnectionState::Play;
    let mut names: Vec<String> = Vec::new();
    names.push(String::from_str("world"));
    let res = client::PlayLogin::new(
        0,
        false,
        SizedVec { vec: names },
        VarInt { value: 2 },
        VarInt { value: 5 },
        VarInt { value: 3 },
        false,
        false,
        false,
        String::from_str("minecraft:overworld"),
        String::from_str("minecraft:overworld"),
        0,
        0,
        0,
        false,
        false,
        false,
        None,
        None,
        VarInt { value: 0 },
    );
    one_packet(ClientPackets::PlayLogin(res))
}

/// What handling the answer to a keepalive does: the id last sent is
/// accepted, and every other id ends the connection.
pub open spec fn keep_alive_done(
    id: i64,
    before: ConnectionInfo,
    after: ConnectionInfo,
    r: Result<Reply, ProtError>,
) -> bool {
    &&& after == before
    &&& if id == before.keep_alive_id {
        silent(r)
    } else {
        &&& r matches Err(ProtError::KeepAliveIdMismatch(expected, got))
        &&& expected == before.keep_alive_id
        &&& got == id
    }
}

pub fn handle_keep_alive(id: i64, connection: &mut ConnectionInfo) -> (r: Result<Reply, ProtError>)
    ensures
        keep_alive_done(id, *old(connection), *final(connection), r),
{
    let keep_alive_id = connection.keep_alive_id;
    if id != keep_alive_id {
        Err(ProtError::KeepAliveIdMismatch(keep_alive_id, id))
    } else {
        no_packets()
    }
}

/// What handling the chat session of a player does: the player is given
/// the first slot of the hotbar, no recipes, and a place at the origin
/// under a fresh teleport id, which is kept.
pub open spec fn player_session_done(
    before: ConnectionInfo,
    after: ConnectionInfo,
    teleport_id: i32,
    r: Result<Reply, ProtError>,
) -> bool {
    &&& after == (ConnectionInfo { teleport_id: VarInt { value: teleport_id }, ..before })
    &&& r matches Ok(Reply::Packets(packets))
    &&& packets@.len() == 3
    &&& packets@[0] == ClientPackets::SetHeldItem(client::SetHeldItem { slot: 0 })
    &&& packets@[1] matches ClientPackets::UpdateRecipes(recipes)
    &&& recipes.recipes.vec@.len() == 0
    &&& packets@[2] == ClientPackets::SynchronizePlayerPosition(
        client::SynchronizePlayerPosition {
            x: Double { bits: 0 },
            y: Double { bits: 0 },
            z: Double { bits: 0 },
            yaw: Float { bits: 0 },
            pitch: Float { bits: 0 },
            flags: 0,
            teleport_id: VarInt { value: teleport_id },
        },
    )
}

pub fn handle_player_session(connection: &mut ConnectionInfo, teleport_id: i32) -> (r: Result<
    Reply,
    ProtError,
>)
    ensures
        player_session_done(*old(connection), *final(connection), teleport_id, r),
{
    let p1 = client::SetHeldItem::new(0);
    let p2 = client::UpdateRecipes::new(SizedVec { vec: Vec::new() });
    connection.teleport_id = VarInt { value: teleport_id };
    let p3 = client::SynchronizePlayerPosition::new(
        Double { bits: 0 },
        Double { bits: 0 },
        Double { bits: 0 },
        Float { bits: 0 },
        Float { bits: 0 },
        0u8,
        connection.teleport_id,
    );
    let mut packets: Vec<ClientPackets> = Vec::new();
    packets.push(ClientPackets::SetHeldItem(p1));
    packets.push(ClientPackets::UpdateRecipes(p2));
    packets.push(ClientPackets::SynchronizePlayerPosition(p3));
    Ok(Reply::Packets(packets))
}

/// What handling a move does: the place that the client names is kept.
pub open spec fn moved(
    before: ConnectionInfo,
    after: ConnectionInfo,
    position: PosRotGround,
    r: Result<Reply, ProtError>,
) -> bool {
    after == (ConnectionInfo { position, ..before }) && silent(r)
}

pub fn handle_set_player_position(
    this: &server::SetPlayerPosition,
    connection: &mut ConnectionInfo,
) -> (r: Result<Reply, ProtError>)
    ensures
        moved(
            *old(connection),
            *final(connection),
            PosRotGround {
                x: this.x,
                y: this.y,
                z: this.z,
                on_ground: this.on_ground,
                ..old(connection).position
            },
            r,
        ),
{
    connection.position.x = this.x;
    connection.position.y = this.y;
    connection.position.z = this.z;
    connection.position.on_ground = this.on_ground;
    no_packets()
}

pub fn handle_set_player_position_and_rotation(
    this: &server::SetPlayerPositionAndRotation,
    connection: &mut ConnectionInfo,
) -> (r: Result<Reply, ProtError>)
    ensures
        moved(
            *old(connection),
            *final(connection),
            PosRotGround {
                x: this.x,
                y: this.y,
                z: this.z,
                pitch: this.pitch,
                yaw: this.yaw,
                on_ground: this.on_ground,
            },
            r,
        ),
{
    connection.position.x = this.x;
    connection.position.y = this.y;
    connection.position.z = this.z;
    connection.position.pitch = this.pitch;
    connection.position.yaw = this.yaw;
    connection.position.on_ground = this.on_ground;
    no_packets()
}

pub fn handle_set_player_rotation(
    this: &server::SetPlayerRotation,
    connection: &mut ConnectionInfo,
) -> (r: Result<Reply, ProtError>)
    ensures
        moved(
            *old(connection),
            *final(connection),
            PosRotGround {
                pitch: this.pitch,
                yaw: this.yaw,
                on_ground: this.on_ground,
                ..old(connection).position
            },
            r,
        ),
{
    connection.position.pitch = this.pitch;
    connection.position.yaw = this.yaw;
    connection.position.on_ground = this.on_ground;
    no_packets()
}

/// `bytes`, `count` times over.
pub open spec fn repeated(bytes: Seq<u8>, count: nat) -> Seq<u8>
    decreases count,
{
    if count == 0 {
        Seq::empty()
    } else {
        repeated(bytes, (count - 1) as nat) + bytes
    }
}

/// The blocks of a section of the world that a new player sees: block 8
/// everywhere, and one stone at (5, 5, 5).
pub open spec fn first_blocks() -> Seq<PaletteValue> {
    Seq::new(4096, |i: int| PaletteValue::Block(8)).update(cell(5, 5, 5), PaletteValue::Block(1))
}

/// Whether `section` is a section of the world that a new player sees:
/// the blocks of `first_blocks` behind a palette of air, block 8 and stone
/// in four bits for each entry, and biome 39 everywhere behind a palette of
/// that biome alone.
pub open spec fn is_first_section(section: ChunkSection) -> bool {
    &&& section.wf()
    &&& section.spec_blocks() == first_blocks()
    &&& section.block_container().is_indirect()
    &&& section.block_container().spec_bits() == 4
    &&& section.block_container().palette_values() == seq![
        PaletteValue::Block(0),
        PaletteValue::Block(8),
        PaletteValue::Block(1),
    ]
    &&& section.spec_biomes() == Seq::new(64, |i: int| PaletteValue::Biome(39))
    &&& section.biome_container().is_indirect()
    &&& section.biome_container().spec_bits() == 1
    &&& section.biome_container().palette_values() == seq![PaletteValue::Biome(39)]
}

/// Whether `data` is a column of 24 sections of the world that a new
/// player sees, all alike, as they travel.
pub open spec fn is_first_column(data: Seq<u8>) -> bool {
    exists|section: ChunkSection| #[trigger]
        is_first_section(section) && data == repeated(section.wire(), 24)
}

/// The column of sections that a new player is sent, as it travels.
pub fn get_chunks() -> (chunks: Vec<u8>)
    ensures
        is_first_column(chunks@),
{
    let mut chunk = ChunkSection::new();
    proof {
        crate::chunk::palette::lemma_widths();
    }
    let ghost fresh = chunk.block_container().palette_values();
    chunk.fill(8);
    let ghost filled = chunk.block_container().palette_values();
    proof {
        assert(!fresh.contains(PaletteValue::Block(8)));
        assert(filled =~= seq![PaletteValue::Block(0), PaletteValue::Block(8)]);
    }
    let marker = Position::new(5, 5, 5);
    proof {
        crate::chunk::section::lemma_cell(marker);
    }
    chunk.set_block(marker, 1).unwrap();
    proof {
        assert(!filled.contains(PaletteValue::Block(1)));
        assert(chunk.block_container().palette_values() =~= seq![
            PaletteValue::Block(0),
            PaletteValue::Block(8),
            PaletteValue::Block(1),
        ]);
        assert(is_first_section(chunk));
    }
    let mut buf: Vec<u8> = Vec::new();
    chunk.write(&mut buf);
    assert(buf@ =~= chunk.wire());
    let mut chunks: Vec<u8> = Vec::new();
    let mut i: usize = 0;
    while i < COLUMN_HEIGHT
        invariant
            i <= 24,
            chunks@ == repeated(buf@, i as nat),
        decreases 24 - i,
    {
        append_bytes(&mut chunks, buf.as_slice());
        i += 1;
    }
    chunks
}

/// A chunk column at (`x`, `z`) that holds `data` and nothing else: no
/// heightmaps, no block entities, no light.
pub open spec fn bare_column(packet: ClientPackets, x: i32, z: i32, data: Seq<u8>) -> bool {
    &&& packet matches ClientPackets::ChunkDataAndUpdateLight(column)
    &&& column.chunk_x == x
    &&& column.chunk_z == z
    &&& column.heightmaps@ == seq![10u8, 0u8]
    &&& column.data.vec@ == data
    &&& column.block_entities.vec@.len() == 0
    &&& column.sky_light_mask@.len() == 0
    &&& column.block_light_mask@.len() == 0
    &&& column.empty_sky_light_mask@.len() == 0
    &&& column.empty_block_light_mask@.len() == 0
    &&& column.sky_lights.vec@.len() == 0
    &&& column.block_lights.vec@.len() == 0
}

/// What handling the confirmation of a teleport does. The id last sent is
/// accepted: the spawn position and the centre of the world are sent, and
/// then the 7 by 7 columns around the origin, row by row. Every other id
/// ends the connection.
pub open spec fn confirm_teleportation_done(
    this: server::ConfirmTeleportation,
    before: ConnectionInfo,
    after: ConnectionInfo,
    r: Result<Reply, ProtError>,
) -> bool {
    &&& after == before
    &&& if before.teleport_id == this.teleport_id {
        &&& r matches Ok(Reply::Packets(packets))
        &&& packets@.len() == 51
        &&& packets@[0] == ClientPackets::SetDefaultSpawnPosition(
            client::SetDefaultSpawnPosition {
                location: Position { x: 0, z: 0, y: 0 },
                angle: Float { bits: 0 },
            },
        )
        &&& packets@[1] == ClientPackets::SetCenterChunk(
            client::SetCenterChunk { x: VarInt { value: 0 }, y: VarInt { value: 0 } },
        )
        &&& exists|data: Seq<u8>| #[trigger]
            is_first_column(data) && forall|i: int, j: int|
                -3 <= i <= 3 && -3 <= j <= 3 ==> bare_column(
                    #[trigger] packets@[2 + (i + 3) * 7 + (j + 3)],
                    i as i32,
                    j as i32,
                    data,
                )
    } else {
        &&& r matches Err(ProtError::TeleportIdMismatch(expected, got))
        &&& expected == before.teleport_id
        &&& got == this.teleport_id
    }
}

fn empty_bit_set() -> (set: BitSet)
    ensures
        set@.len() == 0,
{
    BitSet(SizedVec { vec: Vec::new() })
}

pub fn handle_confirm_teleportation(
    this: &server::ConfirmTeleportation,
    connection: &mut ConnectionInfo,
) -> (r: Result<Reply, ProtError>)
    ensures
        confirm_teleportation_done(*this, *old(connection), *final(connection), r),
{
    let expected_id = connection.teleport_id;
    if expected_id.value == this.teleport_id.value {
        let stone = get_chunks();
        let p6 = client::SetDefaultSpawnPosition::new(
            Position { x: 0, z: 0, y: 0 },
            Float { bits: 0 },
        );
        let p7 = client::SetCenterChunk::new(VarInt { value: 0 }, VarInt { value: 0 });
        let mut to_send: Vec<ClientPackets> = Vec::new();
        to_send.push(ClientPackets::SetDefaultSpawnPosition(p6));
        to_send.push(ClientPackets::SetCenterChunk(p7));
        let mut i: i32 = -3;
        while i <= 3
            invariant
                -3 <= i <= 4,
                to_send@.len() == 2 + (i + 3) * 7,
                to_send@[0] == ClientPackets::SetDefaultSpawnPosition(p6),
                to_send@[1] == ClientPackets::SetCenterChunk(p7),
                forall|a: int, b: int|
                    -3 <= a < i && -3 <= b <= 3 ==> bare_column(
                        #[trigger] to_send@[2 + (a + 3) * 7 + (b + 3)],
                        a as i32,
                        b as i32,
                        stone@,
                    ),
            decreases 4 - i,
        {
            let mut j: i32 = -3;
            while j <= 3
                invariant
                    -3 <= i <= 3,
                    -3 <= j <= 4,
                    to_send@.len() == 2 + (i + 3) * 7 + (j + 3),
                    to_send@[0] == ClientPackets::SetDefaultSpawnPosition(p6),
                    to_send@[1] == ClientPackets::SetCenterChunk(p7),
                    forall|a: int, b: int|
                        -3 <= a <= i && -3 <= b <= 3 && (a < i || b < j) ==> bare_column(
                            #[trigger] to_send@[2 + (a + 3) * 7 + (b + 3)],
                            a as i32,
                            b as i32,
                            stone@,
                        ),
                decreases 4 - j,
            {
                let p = client::ChunkDataAndUpdateLight::new(
                    i,
                    j,
                    NbtCompound::new(),
                    SizedVec { vec: slice_to_vec(stone.as_slice()) },
                    SizedVec { vec: Vec::new() },
                    empty_bit_set(),
                    empty_bit_set(),
                    empty_bit_set(),
                    empty_bit_set(),
                    SizedVec { vec: Vec::new() },
                    SizedVec { vec: Vec::new() },
                );
                let ghost before = to_send@;
                to_send.push(ClientPackets::ChunkDataAndUpdateLight(p));
                proof {
                    assert forall|a: int, b: int|
                        -3 <= a <= i && -3 <= b <= 3 && (a < i || b < j + 1) implies bare_column(
                        #[trigger] to_send@[2 + (a + 3) * 7 + (b + 3)],
                        a as i32,
                        b as i32,
                        stone@,
                    ) by {
                        if a < i || b < j {
                            assert(bare_column(
                                before[2 + (a + 3) * 7 + (b + 3)],
                                a as i32,
                                b as i32,
                                stone@,
                            ));
                        }
                    }
                }
                j += 1;
            }
            i += 1;
        }
        Ok(Reply::Packets(to_send))
    } else {
        Err(ProtError::TeleportIdMismatch(expected_id, this.teleport_id))
    }
}

/// What handling a packet does to the connection and what it answers,
/// where `dice` is what was drawn by chance. The answer to a request for
/// encryption depends on what the key of the server makes of it.
pub open spec fn handled(
    packet: ServerPackets,
    before: ConnectionInfo,
    after: ConnectionInfo,
    assets: Assets,
    dice: Dice,
    r: Result<Reply, ProtError>,
) -> bool {
    match packet {
        ServerPackets::Handshake(this) => handshake_done(this, before, after, r),
        ServerPackets::StatusReq(_) => status_done(before, after, assets, r),
        ServerPackets::PingReq(this) => ping_done(this, before, after, r),
        ServerPackets::LoginStart(this) => login_start_done(
            this,
            before,
            after,
            assets,
            dice.token@,
            r,
        ),
        ServerPackets::EncryptionResponse(this) => encryption_response_done(
            this,
            before,
            after,
            assets,
            r,
        ),
        ServerPackets::LoginAck(_) => login_ack_done(before, after, assets, r),
        ServerPackets::ClientInfo(_) => client_info_done(before, after, r),
        ServerPackets::ConfigurationFinish(_) => configuration_finish_done(before, after, r),
        ServerPackets::ConfigurationKeepAlive(this) => keep_alive_done(this.id, before, after, r),
        ServerPackets::PlayKeepAlive(this) => keep_alive_done(this.id, before, after, r),
        ServerPackets::PlayerSession(_) => player_session_done(
            before,
            after,
            dice.teleport_id,
            r,
        ),
        ServerPackets::SetPlayerPosition(this) => moved(
            before,
            after,
            PosRotGround {
                x: this.x,
                y: this.y,
                z: this.z,
                on_ground: this.on_ground,
                ..before.position
            },
            r,
        ),
        ServerPackets::SetPlayerPositionAndRotation(this) => moved(
            before,
            after,
            PosRotGround {
                x: this.x,
                y: this.y,
                z: this.z,
                pitch: this.pitch,
                yaw: this.yaw,
                on_ground: this.on_ground,
            },
            r,
        ),
        ServerPackets::SetPlayerRotation(this) => moved(
            before,
            after,
            PosRotGround {
                pitch: this.pitch,
                yaw: this.yaw,
                on_ground: this.on_ground,
                ..before.position
            },
            r,
        ),
        ServerPackets::ConfirmTeleportation(this) => confirm_teleportation_done(
            this,
            before,
            after,
            r,
        ),
        ServerPackets::PlayerCommand(_) => after == before && silent(r),
    }
}

/// Handles `packet` with what `dice` holds where chance is called for.
pub fn handle_with(
    packet: &ServerPackets,
    connection: &mut ConnectionInfo,
    assets: &Assets,
    dice: Dice,
) -> (r: Result<Reply, ProtError>)
    ensures
        handled(*packet, *old(connection), *final(connection), *assets, dice, r),
{
    match packet {
        ServerPackets::Handshake(this) => handle_handshake(this, connection),
        ServerPackets::StatusReq(_) => handle_status_req(connection, assets),
        ServerPackets::PingReq(this) => handle_ping_req(this, connection),
        ServerPackets::LoginStart(this) => handle_login_start(
            this,
            connection,
            assets,
            dice.token,
        ),
        ServerPackets::EncryptionResponse(this) => handle_encryption_response(
            this,
            connection,
            assets,
        ),
        ServerPackets::LoginAck(_) => handle_login_ack(connection, assets),
        ServerPackets::ClientInfo(_) => handle_client_info(connection),
        ServerPackets::ConfigurationFinish(_) => handle_configuration_finish(connection),
        ServerPackets::ConfigurationKeepAlive(this) => handle_keep_alive(this.id, connection),
        ServerPackets::PlayKeepAlive(this) => handle_keep_alive(this.id, connection),
        ServerPackets::PlayerSession(_) => handle_player_session(connection, dice.teleport_id),
        ServerPackets::SetPlayerPosition(this) => handle_set_player_position(this, connection),
        ServerPackets::SetPlayerPositionAndRotation(this) => {
            handle_set_player_position_and_rotation(this, connection)
        },
        ServerPackets::SetPlayerRotation(this) => handle_set_player_rotation(this, connection),
        ServerPackets::ConfirmTeleportation(this) => handle_confirm_teleportation(
            this,
            connection,
        ),
        ServerPackets::PlayerCommand(_) => no_packets(),
    }
}

/// Handles `packet`: draws what chance is to decide, a token of four bytes
/// and an id other than 0, and goes on as `handle_with` says.
pub fn handle(packet: &ServerPackets, connection: &mut ConnectionInfo, assets: &Assets) -> (r:
    Result<Reply, ProtError>)
    ensures
        exists|dice: Dice| #[trigger]
            handled(*packet, *old(connection), *final(connection), *assets, dice, r)
                && dice.fair(),
{
    let dice = Dice::roll();
    handle_with(packet, connection, assets, dice)
}

} // verus!
