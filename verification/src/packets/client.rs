use crate::nbt::NbtCompound;
use crate::protocol_types::chat::Chat;
use crate::protocol_types::compound::{BitSet, GameEvent, Position, Uuid};
use crate::protocol_types::items::{BlockEntity, BlockEntityModel, TagGroup, TagGroupModel};
use crate::protocol_types::numbers::{Double, Float};
use crate::protocol_types::primitives::{append_bytes, VarInt};
use crate::protocol_types::recipe::{Recipe, RecipeModel};
use crate::protocol_types::sequences::SizedVec;
use crate::protocol_types::traits::{lemma_concat_assoc, ClientPacket, Prot, SizedProt, WriteProt};
use vstd::prelude::*;

verus! {

/// The status of the server as JSON.
#[derive(Debug)]
pub struct StatusRes {
    pub json: String,
}

/// What a `StatusRes` holds.
pub struct StatusResModel {
    pub json: Seq<char>,
}

impl Prot for StatusRes {
    type Model = StatusResModel;

    open spec fn model(&self) -> StatusResModel {
        StatusResModel {
            json: self.json.model(),
        }
    }

    open spec fn valid(m: StatusResModel) -> bool {
        &&& String::valid(m.json)
    }

    open spec fn encoding(m: StatusResModel) -> Seq<u8> {
        String::encoding(m.json)
    }
}

impl SizedProt for StatusRes {
    fn is_valid(&self) -> (ok: bool) {
        self.json.is_valid()
    }

    fn prot_size(&self) -> (n: usize) {
        self.json.prot_size()
    }
}

impl WriteProt for StatusRes {
    fn write(&self, out: &mut Vec<u8>) {
        self.json.write(out);
    }
}

impl ClientPacket for StatusRes {
    open spec fn spec_id() -> u8 {
        0x00
    }

    fn id() -> (id: u8) {
        0x00
    }
}

impl StatusRes {
    pub fn new(json: String) -> (packet: StatusRes)
        ensures
            packet.json == json,
    {
        StatusRes { json }
    }
}

/// The payload of a ping, sent back.
#[derive(Clone, Copy, Debug, PartialEq, Eq, Structural)]
pub struct PingRes {
    pub payload: i64,
}

impl Prot for PingRes {
    type Model = PingRes;

    open spec fn model(&self) -> PingRes {
        *self
    }

    open spec fn valid(m: PingRes) -> bool {
        &&& i64::valid(m.payload)
    }

    open spec fn encoding(m: PingRes) -> Seq<u8> {
        i64::encoding(m.payload)
    }
}

impl SizedProt for PingRes {
    fn is_valid(&self) -> (ok: bool) {
        self.payload.is_valid()
    }

    fn prot_size(&self) -> (n: usize) {
        self.payload.prot_size()
    }
}

impl WriteProt for PingRes {
    fn write(&self, out: &mut Vec<u8>) {
        self.payload.write(out);
    }
}

impl ClientPacket for PingRes {
    open spec fn spec_id() -> u8 {
        0x01
    }

    fn id() -> (id: u8) {
        0x01
    }
}

impl PingRes {
    pub fn new(payload: i64) -> (packet: PingRes)
        ensures
            packet.payload == payload,
    {
        PingRes { payload }
    }
}

/// Asks the client to encrypt: the server's public key and a token to
/// send back.
#[derive(Debug)]
pub struct EncryptionReq {
    pub server_id: String,
    pub public_key: SizedVec<u8>,
    pub verify_token: SizedVec<u8>,
}

/// What a `EncryptionReq` holds.
pub struct EncryptionReqModel {
    pub server_id: Seq<char>,
    pub public_key: Seq<u8>,
    pub verify_token: Seq<u8>,
}

impl Prot for EncryptionReq {
    type Model = EncryptionReqModel;

    open spec fn model(&self) -> EncryptionReqModel {
        EncryptionReqModel {
            server_id: self.server_id.model(),
            public_key: self.public_key.model(),
            verify_token: self.verify_token.model(),
        }
    }

    open spec fn valid(m: EncryptionReqModel) -> bool {
        &&& String::valid(m.server_id)
        &&& SizedVec::<u8>::valid(m.public_key)
        &&& SizedVec::<u8>::valid(m.verify_token)
    }

    open spec fn encoding(m: EncryptionReqModel) -> Seq<u8> {
        String::encoding(m.server_id)
            + SizedVec::<u8>::encoding(m.public_key)
            + SizedVec::<u8>::encoding(m.verify_token)
    }
}

impl SizedProt for EncryptionReq {
    fn is_valid(&self) -> (ok: bool) {
        self.server_id.is_valid()
            && self.public_key.is_valid()
            && self.verify_token.is_valid()
    }

    fn prot_size(&self) -> (n: usize) {
        self.server_id.prot_size()
            + self.public_key.prot_size()
            + self.verify_token.prot_size()
    }
}

impl WriteProt for EncryptionReq {
    fn write(&self, out: &mut Vec<u8>) {
        self.server_id.write(out);
        self.public_key.write(out);
        self.verify_token.write(out);
        proof {
            let m = self.model();
            lemma_concat_assoc(
                old(out)@,
                String::encoding(m.server_id),
                SizedVec::<u8>::encoding(m.public_key),
            );
            lemma_concat_assoc(
                old(out)@,
                String::encoding(m.server_id) + SizedVec::<u8>::encoding(m.public_key),
                SizedVec::<u8>::encoding(m.verify_token),
            );
        }
    }
}

impl ClientPacket for EncryptionReq {
    open spec fn spec_id() -> u8 {
        0x01
    }

    fn id() -> (id: u8) {
        0x01
    }
}

impl EncryptionReq {
    pub fn new(
        server_id: String,
        public_key: SizedVec<u8>,
        verify_token: SizedVec<u8>,
    ) -> (packet: EncryptionReq)
        ensures
            packet.server_id == server_id,
            packet.public_key == public_key,
            packet.verify_token == verify_token,
    {
        EncryptionReq { server_id, public_key, verify_token }
    }
}

/// Tells the client who it is.
#[derive(Debug)]
pub struct LoginSuccess {
    pub uuid: Uuid,
    pub username: String,
    pub num_properties: VarInt,
}

/// What a `LoginSuccess` holds.
pub struct LoginSuccessModel {
    pub uuid: Uuid,
    pub username: Seq<char>,
    pub num_properties: VarInt,
}

impl Prot for LoginSuccess {
    type Model = LoginSuccessModel;

    open spec fn model(&self) -> LoginSuccessModel {
        LoginSuccessModel {
            uuid: self.uuid.model(),
            username: self.username.model(),
            num_properties: self.num_properties.model(),
        }
    }

    open spec fn valid(m: LoginSuccessModel) -> bool {
        &&& Uuid::valid(m.uuid)
        &&& String::valid(m.username)
        &&& VarInt::valid(m.num_properties)
    }

    open spec fn encoding(m: LoginSuccessModel) -> Seq<u8> {
        Uuid::encoding(m.uuid)
            + String::encoding(m.username)
            + VarInt::encoding(m.num_properties)
    }
}

impl SizedProt for LoginSuccess {
    fn is_valid(&self) -> (ok: bool) {
        self.uuid.is_valid()
            && self.username.is_valid()
            && self.num_properties.is_valid()
    }

    fn prot_size(&self) -> (n: usize) {
        self.uuid.prot_size()
            + self.username.prot_size()
            + self.num_properties.prot_size()
    }
}

impl WriteProt for LoginSuccess {
    fn write(&self, out: &mut Vec<u8>) {
        self.uuid.write(out);
        self.username.write(out);
        self.num_properties.write(out);
        proof {
            let m = self.model();
            lemma_concat_assoc(
                old(out)@,
                Uuid::encoding(m.uuid),
                String::encoding(m.username),
            );
            lemma_concat_assoc(
                old(out)@,
                Uuid::encoding(m.uuid) + String::encoding(m.username),
                VarInt::encoding(m.num_properties),
            );
        }
    }
}

impl ClientPacket for LoginSuccess {
    open spec fn spec_id() -> u8 {
        0x02
    }

    fn id() -> (id: u8) {
        0x02
    }
}

impl LoginSuccess {
    pub fn new(
        uuid: Uuid,
        username: String,
        num_properties: VarInt,
    ) -> (packet: LoginSuccess)
        ensures
            packet.uuid == uuid,
            packet.username == username,
            packet.num_properties == num_properties,
    {
        LoginSuccess { uuid, username, num_properties }
    }
}

/// A keepalive during the configuration: the client answers with `id`.
#[derive(Clone, Copy, Debug, PartialEq, Eq, Structural)]
pub struct ConfigurationKeepAlive {
    pub id: i64,
}

impl Prot for ConfigurationKeepAlive {
    type Model = ConfigurationKeepAlive;

    open spec fn model(&self) -> ConfigurationKeepAlive {
        *self
    }

    open spec fn valid(m: ConfigurationKeepAlive) -> bool {
        &&& i64::valid(m.id)
    }

    open spec fn encoding(m: ConfigurationKeepAlive) -> Seq<u8> {
        i64::encoding(m.id)
    }
}

impl SizedProt for ConfigurationKeepAlive {
    fn is_valid(&self) -> (ok: bool) {
        self.id.is_valid()
    }

    fn prot_size(&self) -> (n: usize) {
        self.id.prot_size()
    }
}

impl WriteProt for ConfigurationKeepAlive {
    fn write(&self, out: &mut Vec<u8>) {
        self.id.write(out);
    }
}

impl ClientPacket for ConfigurationKeepAlive {
    open spec fn spec_id() -> u8 {
        0x03
    }

    fn id() -> (id: u8) {
        0x03
    }
}

impl ConfigurationKeepAlive {
    pub fn new(id: i64) -> (packet: ConfigurationKeepAlive)
        ensures
            packet.id == id,
    {
        ConfigurationKeepAlive { id }
    }
}

/// Ends the configuration.
#[derive(Clone, Copy, Debug, PartialEq, Eq, Structural)]
pub struct ConfigurationFinish {}

impl Prot for ConfigurationFinish {
    type Model = ConfigurationFinish;

    open spec fn model(&self) -> ConfigurationFinish {
        *self
    }

    open spec fn valid(m: ConfigurationFinish) -> bool {
        true
    }

    open spec fn encoding(m: ConfigurationFinish) -> Seq<u8> {
        Seq::empty()
    }
}

impl SizedProt for ConfigurationFinish {
    fn is_valid(&self) -> (ok: bool) {
        true
    }

    fn prot_size(&self) -> (n: usize) {
        0
    }
}

impl WriteProt for ConfigurationFinish {
    fn write(&self, out: &mut Vec<u8>) {
        assert(out@ =~= old(out)@ + Seq::<u8>::empty());
    }
}

impl ClientPacket for ConfigurationFinish {
    open spec fn spec_id() -> u8 {
        0x02
    }

    fn id() -> (id: u8) {
        0x02
    }
}

impl ConfigurationFinish {
    pub fn new() -> (packet: ConfigurationFinish) {
        ConfigurationFinish {  }
    }
}

/// The registries of the server.
#[derive(Debug)]
pub struct RegistryData {
    pub data: NbtCompound,
}

/// What a `RegistryData` holds.
pub struct RegistryDataModel {
    pub data: Seq<u8>,
}

impl Prot for RegistryData {
    type Model = RegistryDataModel;

    open spec fn model(&self) -> RegistryDataModel {
        RegistryDataModel {
            data: self.data.model(),
        }
    }

    open spec fn valid(m: RegistryDataModel) -> bool {
        &&& NbtCompound::valid(m.data)
    }

    open spec fn encoding(m: RegistryDataModel) -> Seq<u8> {
        NbtCompound::encoding(m.data)
    }
}

impl SizedProt for RegistryData {
    fn is_valid(&self) -> (ok: bool) {
        self.data.is_valid()
    }

    fn prot_size(&self) -> (n: usize) {
        self.data.prot_size()
    }
}

impl WriteProt for RegistryData {
    fn write(&self, out: &mut Vec<u8>) {
        self.data.write(out);
    }
}

impl ClientPacket for RegistryData {
    open spec fn spec_id() -> u8 {
        0x05
    }

    fn id() -> (id: u8) {
        0x05
    }
}

impl RegistryData {
    pub fn new(data: NbtCompound) -> (packet: RegistryData)
        ensures
            packet.data == data,
    {
        RegistryData { data }
    }
}

/// Puts the client into the world. The place of death is there exactly
/// if `has_death_location` says so.
#[derive(Debug)]
pub struct PlayLogin {
    pub entity_id: i32,
    pub is_hardcore: bool,
    pub dimension_names: SizedVec<String>,
    pub max_players: VarInt,
    pub view_distance: VarInt,
    pub simulation_distance: VarInt,
    pub reduced_debug_info: bool,
    pub enable_respawn_screen: bool,
    pub do_limited_crafting: bool,
    pub dimension_type: String,
    pub dimension_name: String,
    pub hashed_seed: i64,
    pub game_mode: u8,
    pub previous_game_mode: u8,
    pub is_debug: bool,
    pub is_flat: bool,
    pub has_death_location: bool,
    pub death_dimension_name: Option<String>,
    pub death_location: Option<Position>,
    pub portal_cooldown: VarInt,
}

/// What a `PlayLogin` holds.
pub struct PlayLoginModel {
    pub entity_id: i32,
    pub is_hardcore: bool,
    pub dimension_names: Seq<Seq<char>>,
    pub max_players: VarInt,
    pub view_distance: VarInt,
    pub simulation_distance: VarInt,
    pub reduced_debug_info: bool,
    pub enable_respawn_screen: bool,
    pub do_limited_crafting: bool,
    pub dimension_type: Seq<char>,
    pub dimension_name: Seq<char>,
    pub hashed_seed: i64,
    pub game_mode: u8,
    pub previous_game_mode: u8,
    pub is_debug: bool,
    pub is_flat: bool,
    pub has_death_location: bool,
    pub death_dimension_name: Option<Seq<char>>,
    pub death_location: Option<Position>,
    pub portal_cooldown: VarInt,
}

impl Prot for PlayLogin {
    type Model = PlayLoginModel;

    open spec fn model(&self) -> PlayLoginModel {
        PlayLoginModel {
            entity_id: self.entity_id.model(),
            is_hardcore: self.is_hardcore.model(),
            dimension_names: self.dimension_names.model(),
            max_players: self.max_players.model(),
            view_distance: self.view_distance.model(),
            simulation_distance: self.simulation_distance.model(),
            reduced_debug_info: self.reduced_debug_info.model(),
            enable_respawn_screen: self.enable_respawn_screen.model(),
            do_limited_crafting: self.do_limited_crafting.model(),
            dimension_type: self.dimension_type.model(),
            dimension_name: self.dimension_name.model(),
            hashed_seed: self.hashed_seed.model(),
            game_mode: self.game_mode.model(),
            previous_game_mode: self.previous_game_mode.model(),
            is_debug: self.is_debug.model(),
            is_flat: self.is_flat.model(),
            has_death_location: self.has_death_location.model(),
            death_dimension_name: self.death_dimension_name.model(),
            death_location: self.death_location.model(),
            portal_cooldown: self.portal_cooldown.model(),
        }
    }

    open spec fn valid(m: PlayLoginModel) -> bool {
        &&& i32::valid(m.entity_id)
        &&& bool::valid(m.is_hardcore)
        &&& SizedVec::<String>::valid(m.dimension_names)
        &&& VarInt::valid(m.max_players)
        &&& VarInt::valid(m.view_distance)
        &&& VarInt::valid(m.simulation_distance)
        &&& bool::valid(m.reduced_debug_info)
        &&& bool::valid(m.enable_respawn_screen)
        &&& bool::valid(m.do_limited_crafting)
        &&& String::valid(m.dimension_type)
        &&& String::valid(m.dimension_name)
        &&& i64::valid(m.hashed_seed)
        &&& u8::valid(m.game_mode)
        &&& u8::valid(m.previous_game_mode)
        &&& bool::valid(m.is_debug)
        &&& bool::valid(m.is_flat)
        &&& bool::valid(m.has_death_location)
        &&& Option::<String>::valid(m.death_dimension_name)
        &&& (m.death_dimension_name is Some <==> m.has_death_location)
        &&& Option::<Position>::valid(m.death_location)
        &&& (m.death_location is Some <==> m.has_death_location)
        &&& VarInt::valid(m.portal_cooldown)
    }

    open spec fn encoding(m: PlayLoginModel) -> Seq<u8> {
        i32::encoding(m.entity_id)
            + bool::encoding(m.is_hardcore)
            + SizedVec::<String>::encoding(m.dimension_names)
            + VarInt::encoding(m.max_players)
            + VarInt::encoding(m.view_distance)
            + VarInt::encoding(m.simulation_distance)
            + bool::encoding(m.reduced_debug_info)
            + bool::encoding(m.enable_respawn_screen)
            + bool::encoding(m.do_limited_crafting)
            + String::encoding(m.dimension_type)
            + String::encoding(m.dimension_name)
            + i64::encoding(m.hashed_seed)
            + u8::encoding(m.game_mode)
            + u8::encoding(m.previous_game_mode)
            + bool::encoding(m.is_debug)
            + bool::encoding(m.is_flat)
            + bool::encoding(m.has_death_location)
            + Option::<String>::encoding(m.death_dimension_name)
            + Option::<Position>::encoding(m.death_location)
            + VarInt::encoding(m.portal_cooldown)
    }
}

impl SizedProt for PlayLogin {
    fn is_valid(&self) -> (ok: bool) {
        self.entity_id.is_valid()
            && self.is_hardcore.is_valid()
            && self.dimension_names.is_valid()
            && self.max_players.is_valid()
            && self.view_distance.is_valid()
            && self.simulation_distance.is_valid()
            && self.reduced_debug_info.is_valid()
            && self.enable_respawn_screen.is_valid()
            && self.do_limited_crafting.is_valid()
            && self.dimension_type.is_valid()
            && self.dimension_name.is_valid()
            && self.hashed_seed.is_valid()
            && self.game_mode.is_valid()
            && self.previous_game_mode.is_valid()
            && self.is_debug.is_valid()
            && self.is_flat.is_valid()
            && self.has_death_location.is_valid()
            && self.death_dimension_name.is_valid()
            && self.death_dimension_name.is_some() == self.has_death_location
            && self.death_location.is_valid()
            && self.death_location.is_some() == self.has_death_location
            && self.portal_cooldown.is_valid()
    }

    fn prot_size(&self) -> (n: usize) {
        self.entity_id.prot_size()
            + self.is_hardcore.prot_size()
            + self.dimension_names.prot_size()
            + self.max_players.prot_size()
            + self.view_distance.prot_size()
            + self.simulation_distance.prot_size()
            + self.reduced_debug_info.prot_size()
            + self.enable_respawn_screen.prot_size()
            + self.do_limited_crafting.prot_size()
            + self.dimension_type.prot_size()
            + self.dimension_name.prot_size()
            + self.hashed_seed.prot_size()
            + self.game_mode.prot_size()
            + self.previous_game_mode.prot_size()
            + self.is_debug.prot_size()
            + self.is_flat.prot_size()
            + self.has_death_location.prot_size()
            + self.death_dimension_name.prot_size()
            + self.death_location.prot_size()
            + self.portal_cooldown.prot_size()
    }
}

impl WriteProt for PlayLogin {
    fn write(&self, out: &mut Vec<u8>) {
        self.entity_id.write(out);
        self.is_hardcore.write(out);
        self.dimension_names.write(out);
        self.max_players.write(out);
        self.view_distance.write(out);
        self.simulation_distance.write(out);
        self.reduced_debug_info.write(out);
        self.enable_respawn_screen.write(out);
        self.do_limited_crafting.write(out);
        self.dimension_type.write(out);
        self.dimension_name.write(out);
        self.hashed_seed.write(out);
        self.game_mode.write(out);
        self.previous_game_mode.write(out);
        self.is_debug.write(out);
        self.is_flat.write(out);
        self.has_death_location.write(out);
        self.death_dimension_name.write(out);
        self.death_location.write(out);
        self.portal_cooldown.write(out);
        proof {
            let m = self.model();
            lemma_concat_assoc(
                old(out)@,
                i32::encoding(m.entity_id),
                bool::encoding(m.is_hardcore),
            );
            lemma_concat_assoc(
                old(out)@,
                i32::encoding(m.entity_id) + bool::encoding(m.is_hardcore),
                SizedVec::<String>::encoding(m.dimension_names),
            );
            lemma_concat_assoc(
                old(out)@,
                i32::encoding(m.entity_id) + bool::encoding(m.is_hardcore) + SizedVec::<String>::encoding(m.dimension_names),
                VarInt::encoding(m.max_players),
            );
            lemma_concat_assoc(
                old(out)@,
                i32::encoding(m.entity_id) + bool::encoding(m.is_hardcore) + SizedVec::<String>::encoding(m.dimension_names) + VarInt::encoding(m.max_players),
                VarInt::encoding(m.view_distance),
            );
            lemma_concat_assoc(
                old(out)@,
                i32::encoding(m.entity_id) + bool::encoding(m.is_hardcore) + SizedVec::<String>::encoding(m.dimension_names) + VarInt::encoding(m.max_players) + VarInt::encoding(m.view_distance),
                VarInt::encoding(m.simulation_distance),
            );
            lemma_concat_assoc(
                old(out)@,
                i32::encoding(m.entity_id) + bool::encoding(m.is_hardcore) + SizedVec::<String>::encoding(m.dimension_names) + VarInt::encoding(m.max_players) + VarInt::encoding(m.view_distance) + VarInt::encoding(m.simulation_distance),
                bool::encoding(m.reduced_debug_info),
            );
            lemma_concat_assoc(
                old(out)@,
                i32::encoding(m.entity_id) + bool::encoding(m.is_hardcore) + SizedVec::<String>::encoding(m.dimension_names) + VarInt::encoding(m.max_players) + VarInt::encoding(m.view_distance) + VarInt::encoding(m.simulation_distance) + bool::encoding(m.reduced_debug_info),
                bool::encoding(m.enable_respawn_screen),
            );
            lemma_concat_assoc(
                old(out)@,
                i32::encoding(m.entity_id) + bool::encoding(m.is_hardcore) + SizedVec::<String>::encoding(m.dimension_names) + VarInt::encoding(m.max_players) + VarInt::encoding(m.view_distance) + VarInt::encoding(m.simulation_distance) + bool::encoding(m.reduced_debug_info) + bool::encoding(m.enable_respawn_screen),
                bool::encoding(m.do_limited_crafting),
            );
            lemma_concat_assoc(
                old(out)@,
                i32::encoding(m.entity_id) + bool::encoding(m.is_hardcore) + SizedVec::<String>::encoding(m.dimension_names) + VarInt::encoding(m.max_players) + VarInt::encoding(m.view_distance) + VarInt::encoding(m.simulation_distance) + bool::encoding(m.reduced_debug_info) + bool::encoding(m.enable_respawn_screen) + bool::encoding(m.do_limited_crafting),
                String::encoding(m.dimension_type),
            );
            lemma_concat_assoc(
                old(out)@,
                i32::encoding(m.entity_id) + bool::encoding(m.is_hardcore) + SizedVec::<String>::encoding(m.dimension_names) + VarInt::encoding(m.max_players) + VarInt::encoding(m.view_distance) + VarInt::encoding(m.simulation_distance) + bool::encoding(m.reduced_debug_info) + bool::encoding(m.enable_respawn_screen) + bool::encoding(m.do_limited_crafting) + String::encoding(m.dimension_type),
                String::encoding(m.dimension_name),
            );
            lemma_concat_assoc(
                old(out)@,
                i32::encoding(m.entity_id) + bool::encoding(m.is_hardcore) + SizedVec::<String>::encoding(m.dimension_names) + VarInt::encoding(m.max_players) + VarInt::encoding(m.view_distance) + VarInt::encoding(m.simulation_distance) + bool::encoding(m.reduced_debug_info) + bool::encoding(m.enable_respawn_screen) + bool::encoding(m.do_limited_crafting) + String::encoding(m.dimension_type) + String::encoding(m.dimension_name),
                i64::encoding(m.hashed_seed),
            );
            lemma_concat_assoc(
                old(out)@,
                i32::encoding(m.entity_id) + bool::encoding(m.is_hardcore) + SizedVec::<String>::encoding(m.dimension_names) + VarInt::encoding(m.max_players) + VarInt::encoding(m.view_distance) + VarInt::encoding(m.simulation_distance) + bool::encoding(m.reduced_debug_info) + bool::encoding(m.enable_respawn_screen) + bool::encoding(m.do_limited_crafting) + String::encoding(m.dimension_type) + String::encoding(m.dimension_name) + i64::encoding(m.hashed_seed),
                u8::encoding(m.game_mode),
            );
            lemma_concat_assoc(
                old(out)@,
                i32::encoding(m.entity_id) + bool::encoding(m.is_hardcore) + SizedVec::<String>::encoding(m.dimension_names) + VarInt::encoding(m.max_players) + VarInt::encoding(m.view_distance) + VarInt::encoding(m.simulation_distance) + bool::encoding(m.reduced_debug_info) + bool::encoding(m.enable_respawn_screen) + bool::encoding(m.do_limited_crafting) + String::encoding(m.dimension_type) + String::encoding(m.dimension_name) + i64::encoding(m.hashed_seed) + u8::encoding(m.game_mode),
                u8::encoding(m.previous_game_mode),
            );
            lemma_concat_assoc(
                old(out)@,
                i32::encoding(m.entity_id) + bool::encoding(m.is_hardcore) + SizedVec::<String>::encoding(m.dimension_names) + VarInt::encoding(m.max_players) + VarInt::encoding(m.view_distance) + VarInt::encoding(m.simulation_distance) + bool::encoding(m.reduced_debug_info) + bool::encoding(m.enable_respawn_screen) + bool::encoding(m.do_limited_crafting) + String::encoding(m.dimension_type) + String::encoding(m.dimension_name) + i64::encoding(m.hashed_seed) + u8::encoding(m.game_mode) + u8::encoding(m.previous_game_mode),
                bool::encoding(m.is_debug),
            );
            lemma_concat_assoc(
                old(out)@,
                i32::encoding(m.entity_id) + bool::encoding(m.is_hardcore) + SizedVec::<String>::encoding(m.dimension_names) + VarInt::encoding(m.max_players) + VarInt::encoding(m.view_distance) + VarInt::encoding(m.simulation_distance) + bool::encoding(m.reduced_debug_info) + bool::encoding(m.enable_respawn_screen) + bool::encoding(m.do_limited_crafting) + String::encoding(m.dimension_type) + String::encoding(m.dimension_name) + i64::encoding(m.hashed_seed) + u8::encoding(m.game_mode) + u8::encoding(m.previous_game_mode) + bool::encoding(m.is_debug),
                bool::encoding(m.is_flat),
            );
            lemma_concat_assoc(
                old(out)@,
                i32::encoding(m.entity_id) + bool::encoding(m.is_hardcore) + SizedVec::<String>::encoding(m.dimension_names) + VarInt::encoding(m.max_players) + VarInt::encoding(m.view_distance) + VarInt::encoding(m.simulation_distance) + bool::encoding(m.reduced_debug_info) + bool::encoding(m.enable_respawn_screen) + bool::encoding(m.do_limited_crafting) + String::encoding(m.dimension_type) + String::encoding(m.dimension_name) + i64::encoding(m.hashed_seed) + u8::encoding(m.game_mode) + u8::encoding(m.previous_game_mode) + bool::encoding(m.is_debug) + bool::encoding(m.is_flat),
                bool::encoding(m.has_death_location),
            );
            lemma_concat_assoc(
                old(out)@,
                i32::encoding(m.entity_id) + bool::encoding(m.is_hardcore) + SizedVec::<String>::encoding(m.dimension_names) + VarInt::encoding(m.max_players) + VarInt::encoding(m.view_distance) + VarInt::encoding(m.simulation_distance) + bool::encoding(m.reduced_debug_info) + bool::encoding(m.enable_respawn_screen) + bool::encoding(m.do_limited_crafting) + String::encoding(m.dimension_type) + String::encoding(m.dimension_name) + i64::encoding(m.hashed_seed) + u8::encoding(m.game_mode) + u8::encoding(m.previous_game_mode) + bool::encoding(m.is_debug) + bool::encoding(m.is_flat) + bool::encoding(m.has_death_location),
                Option::<String>::encoding(m.death_dimension_name),
            );
            lemma_concat_assoc(
                old(out)@,
                i32::encoding(m.entity_id) + bool::encoding(m.is_hardcore) + SizedVec::<String>::encoding(m.dimension_names) + VarInt::encoding(m.max_players) + VarInt::encoding(m.view_distance) + VarInt::encoding(m.simulation_distance) + bool::encoding(m.reduced_debug_info) + bool::encoding(m.enable_respawn_screen) + bool::encoding(m.do_limited_crafting) + String::encoding(m.dimension_type) + String::encoding(m.dimension_name) + i64::encoding(m.hashed_seed) + u8::encoding(m.game_mode) + u8::encoding(m.previous_game_mode) + bool::encoding(m.is_debug) + bool::encoding(m.is_flat) + bool::encoding(m.has_death_location) + Option::<String>::encoding(m.death_dimension_name),
                Option::<Position>::encoding(m.death_location),
            );
            lemma_concat_assoc(
                old(out)@,
                i32::encoding(m.entity_id) + bool::encoding(m.is_hardcore) + SizedVec::<String>::encoding(m.dimension_names) + VarInt::encoding(m.max_players) + VarInt::encoding(m.view_distance) + VarInt::encoding(m.simulation_distance) + bool::encoding(m.reduced_debug_info) + bool::encoding(m.enable_respawn_screen) + bool::encoding(m.do_limited_crafting) + String::encoding(m.dimension_type) + String::encoding(m.dimension_name) + i64::encoding(m.hashed_seed) + u8::encoding(m.game_mode) + u8::encoding(m.previous_game_mode) + bool::encoding(m.is_debug) + bool::encoding(m.is_flat) + bool::encoding(m.has_death_location) + Option::<String>::encoding(m.death_dimension_name) + Option::<Position>::encoding(m.death_location),
                VarInt::encoding(m.portal_cooldown),
            );
        }
    }
}

impl ClientPacket for PlayLogin {
    open spec fn spec_id() -> u8 {
        0x29
    }

    fn id() -> (id: u8) {
        0x29
    }
}

impl PlayLogin {
    pub fn new(
        entity_id: i32,
        is_hardcore: bool,
        dimension_names: SizedVec<String>,
        max_players: VarInt,
        view_distance: VarInt,
        simulation_distance: VarInt,
        reduced_debug_info: bool,
        enable_respawn_screen: bool,
        do_limited_crafting: bool,
        dimension_type: String,
        dimension_name: String,
        hashed_seed: i64,
        game_mode: u8,
        previous_game_mode: u8,
        is_debug: bool,
        is_flat: bool,
        has_death_location: bool,
        death_dimension_name: Option<String>,
        death_location: Option<Position>,
        portal_cooldown: VarInt,
    ) -> (packet: PlayLogin)
        ensures
            packet.entity_id == entity_id,
            packet.is_hardcore == is_hardcore,
            packet.dimension_names == dimension_names,
            packet.max_players == max_players,
            packet.view_distance == view_distance,
            packet.simulation_distance == simulation_distance,
            packet.reduced_debug_info == reduced_debug_info,
            packet.enable_respawn_screen == enable_respawn_screen,
            packet.do_limited_crafting == do_limited_crafting,
            packet.dimension_type == dimension_type,
            packet.dimension_name == dimension_name,
            packet.hashed_seed == hashed_seed,
            packet.game_mode == game_mode,
            packet.previous_game_mode == previous_game_mode,
            packet.is_debug == is_debug,
            packet.is_flat == is_flat,
            packet.has_death_location == has_death_location,
            packet.death_dimension_name == death_dimension_name,
            packet.death_location == death_location,
            packet.portal_cooldown == portal_cooldown,
    {
        PlayLogin { entity_id, is_hardcore, dimension_names, max_players, view_distance, simulation_distance, reduced_debug_info, enable_respawn_screen, do_limited_crafting, dimension_type, dimension_name, hashed_seed, game_mode, previous_game_mode, is_debug, is_flat, has_death_location, death_dimension_name, death_location, portal_cooldown }
    }
}

/// A keepalive during play: the client answers with `id`.
#[derive(Clone, Copy, Debug, PartialEq, Eq, Structural)]
pub struct PlayKeepAlive {
    pub id: i64,
}

impl Prot for PlayKeepAlive {
    type Model = PlayKeepAlive;

    open spec fn model(&self) -> PlayKeepAlive {
        *self
    }

    open spec fn valid(m: PlayKeepAlive) -> bool {
        &&& i64::valid(m.id)
    }

    open spec fn encoding(m: PlayKeepAlive) -> Seq<u8> {
        i64::encoding(m.id)
    }
}

impl SizedProt for PlayKeepAlive {
    fn is_valid(&self) -> (ok: bool) {
        self.id.is_valid()
    }

    fn prot_size(&self) -> (n: usize) {
        self.id.prot_size()
    }
}

impl WriteProt for PlayKeepAlive {
    fn write(&self, out: &mut Vec<u8>) {
        self.id.write(out);
    }
}

impl ClientPacket for PlayKeepAlive {
    open spec fn spec_id() -> u8 {
        0x24
    }

    fn id() -> (id: u8) {
        0x24
    }
}

impl PlayKeepAlive {
    pub fn new(id: i64) -> (packet: PlayKeepAlive)
        ensures
            packet.id == id,
    {
        PlayKeepAlive { id }
    }
}

/// Which slot of the hotbar the player holds.
#[derive(Clone, Copy, Debug, PartialEq, Eq, Structural)]
pub struct SetHeldItem {
    pub slot: u8,
}

impl Prot for SetHeldItem {
    type Model = SetHeldItem;

    open spec fn model(&self) -> SetHeldItem {
        *self
    }

    open spec fn valid(m: SetHeldItem) -> bool {
        &&& u8::valid(m.slot)
    }

    open spec fn encoding(m: SetHeldItem) -> Seq<u8> {
        u8::encoding(m.slot)
    }
}

impl SizedProt for SetHeldItem {
    fn is_valid(&self) -> (ok: bool) {
        self.slot.is_valid()
    }

    fn prot_size(&self) -> (n: usize) {
        self.slot.prot_size()
    }
}

impl WriteProt for SetHeldItem {
    fn write(&self, out: &mut Vec<u8>) {
        self.slot.write(out);
    }
}

impl ClientPacket for SetHeldItem {
    open spec fn spec_id() -> u8 {
        0x4f
    }

    fn id() -> (id: u8) {
        0x4f
    }
}

impl SetHeldItem {
    pub fn new(slot: u8) -> (packet: SetHeldItem)
        ensures
            packet.slot == slot,
    {
        SetHeldItem { slot }
    }
}

/// The recipes that the client may use.
#[derive(Debug)]
pub struct UpdateRecipes {
    pub recipes: SizedVec<Recipe>,
}

/// What a `UpdateRecipes` holds.
pub struct UpdateRecipesModel {
    pub recipes: Seq<RecipeModel>,
}

impl Prot for UpdateRecipes {
    type Model = UpdateRecipesModel;

    open spec fn model(&self) -> UpdateRecipesModel {
        UpdateRecipesModel {
            recipes: self.recipes.model(),
        }
    }

    open spec fn valid(m: UpdateRecipesModel) -> bool {
        &&& SizedVec::<Recipe>::valid(m.recipes)
    }

    open spec fn encoding(m: UpdateRecipesModel) -> Seq<u8> {
        SizedVec::<Recipe>::encoding(m.recipes)
    }
}

impl SizedProt for UpdateRecipes {
    fn is_valid(&self) -> (ok: bool) {
        self.recipes.is_valid()
    }

    fn prot_size(&self) -> (n: usize) {
        self.recipes.prot_size()
    }
}

impl WriteProt for UpdateRecipes {
    fn write(&self, out: &mut Vec<u8>) {
        self.recipes.write(out);
    }
}

impl ClientPacket for UpdateRecipes {
    open spec fn spec_id() -> u8 {
        0x6f
    }

    fn id() -> (id: u8) {
        0x6f
    }
}

impl UpdateRecipes {
    pub fn new(recipes: SizedVec<Recipe>) -> (packet: UpdateRecipes)
        ensures
            packet.recipes == recipes,
    {
        UpdateRecipes { recipes }
    }
}

/// The tags of the registries.
#[derive(Debug)]
pub struct UpdateTags {
    pub tag_groups: SizedVec<TagGroup>,
}

/// What a `UpdateTags` holds.
pub struct UpdateTagsModel {
    pub tag_groups: Seq<TagGroupModel>,
}

impl Prot for UpdateTags {
    type Model = UpdateTagsModel;

    open spec fn model(&self) -> UpdateTagsModel {
        UpdateTagsModel {
            tag_groups: self.tag_groups.model(),
        }
    }

    open spec fn valid(m: UpdateTagsModel) -> bool {
        &&& SizedVec::<TagGroup>::valid(m.tag_groups)
    }

    open spec fn encoding(m: UpdateTagsModel) -> Seq<u8> {
        SizedVec::<TagGroup>::encoding(m.tag_groups)
    }
}

impl SizedProt for UpdateTags {
    fn is_valid(&self) -> (ok: bool) {
        self.tag_groups.is_valid()
    }

    fn prot_size(&self) -> (n: usize) {
        self.tag_groups.prot_size()
    }
}

impl WriteProt for UpdateTags {
    fn write(&self, out: &mut Vec<u8>) {
        self.tag_groups.write(out);
    }
}

impl ClientPacket for UpdateTags {
    open spec fn spec_id() -> u8 {
        0x70
    }

    fn id() -> (id: u8) {
        0x70
    }
}

impl UpdateTags {
    pub fn new(tag_groups: SizedVec<TagGroup>) -> (packet: UpdateTags)
        ensures
            packet.tag_groups == tag_groups,
    {
        UpdateTags { tag_groups }
    }
}

/// Puts the player somewhere: the client confirms with `teleport_id`.
#[derive(Clone, Copy, Debug, PartialEq, Eq, Structural)]
pub struct SynchronizePlayerPosition {
    pub x: Double,
    pub y: Double,
    pub z: Double,
    pub yaw: Float,
    pub pitch: Float,
    pub flags: u8,
    pub teleport_id: VarInt,
}

impl Prot for SynchronizePlayerPosition {
    type Model = SynchronizePlayerPosition;

    open spec fn model(&self) -> SynchronizePlayerPosition {
        *self
    }

    open spec fn valid(m: SynchronizePlayerPosition) -> bool {
        &&& Double::valid(m.x)
        &&& Double::valid(m.y)
        &&& Double::valid(m.z)
        &&& Float::valid(m.yaw)
        &&& Float::valid(m.pitch)
        &&& u8::valid(m.flags)
        &&& VarInt::valid(m.teleport_id)
    }

    open spec fn encoding(m: SynchronizePlayerPosition) -> Seq<u8> {
        Double::encoding(m.x)
            + Double::encoding(m.y)
            + Double::encoding(m.z)
            + Float::encoding(m.yaw)
            + Float::encoding(m.pitch)
            + u8::encoding(m.flags)
            + VarInt::encoding(m.teleport_id)
    }
}

impl SizedProt for SynchronizePlayerPosition {
    fn is_valid(&self) -> (ok: bool) {
        self.x.is_valid()
            && self.y.is_valid()
            && self.z.is_valid()
            && self.yaw.is_valid()
            && self.pitch.is_valid()
            && self.flags.is_valid()
            && self.teleport_id.is_valid()
    }

    fn prot_size(&self) -> (n: usize) {
        self.x.prot_size()
            + self.y.prot_size()
            + self.z.prot_size()
            + self.yaw.prot_size()
            + self.pitch.prot_size()
            + self.flags.prot_size()
            + self.teleport_id.prot_size()
    }
}

impl WriteProt for SynchronizePlayerPosition {
    fn write(&self, out: &mut Vec<u8>) {
        self.x.write(out);
        self.y.write(out);
        self.z.write(out);
        self.yaw.write(out);
        self.pitch.write(out);
        self.flags.write(out);
        self.teleport_id.write(out);
        proof {
            let m = self.model();
            lemma_concat_assoc(
                old(out)@,
                Double::encoding(m.x),
                Double::encoding(m.y),
            );
            lemma_concat_assoc(
                old(out)@,
                Double::encoding(m.x) + Double::encoding(m.y),
                Double::encoding(m.z),
            );
            lemma_concat_assoc(
                old(out)@,
                Double::encoding(m.x) + Double::encoding(m.y) + Double::encoding(m.z),
                Float::encoding(m.yaw),
            );
            lemma_concat_assoc(
                old(out)@,
                Double::encoding(m.x) + Double::encoding(m.y) + Double::encoding(m.z) + Float::encoding(m.yaw),
                Float::encoding(m.pitch),
            );
            lemma_concat_assoc(
                old(out)@,
                Double::encoding(m.x) + Double::encoding(m.y) + Double::encoding(m.z) + Float::encoding(m.yaw) + Float::encoding(m.pitch),
                u8::encoding(m.flags),
            );
            lemma_concat_assoc(
                old(out)@,
                Double::encoding(m.x) + Double::encoding(m.y) + Double::encoding(m.z) + Float::encoding(m.yaw) + Float::encoding(m.pitch) + u8::encoding(m.flags),
                VarInt::encoding(m.teleport_id),
            );
        }
    }
}

impl ClientPacket for SynchronizePlayerPosition {
    open spec fn spec_id() -> u8 {
        0x3e
    }

    fn id() -> (id: u8) {
        0x3e
    }
}

impl SynchronizePlayerPosition {
    pub fn new(
        x: Double,
        y: Double,
        z: Double,
        yaw: Float,
        pitch: Float,
        flags: u8,
        teleport_id: VarInt,
    ) -> (packet: SynchronizePlayerPosition)
        ensures
            packet.x == x,
            packet.y == y,
            packet.z == z,
            packet.yaw == yaw,
            packet.pitch == pitch,
            packet.flags == flags,
            packet.teleport_id == teleport_id,
    {
        SynchronizePlayerPosition { x, y, z, yaw, pitch, flags, teleport_id }
    }
}

/// A chunk column: its sections one after the other in `data`, and its light.
#[derive(Debug)]
pub struct ChunkDataAndUpdateLight {
    pub chunk_x: i32,
    pub chunk_z: i32,
    pub heightmaps: NbtCompound,
    pub data: SizedVec<u8>,
    pub block_entities: SizedVec<BlockEntity>,
    pub sky_light_mask: BitSet,
    pub block_light_mask: BitSet,
    pub empty_sky_light_mask: BitSet,
    pub empty_block_light_mask: BitSet,
    pub sky_lights: SizedVec<SizedVec<u8>>,
    pub block_lights: SizedVec<SizedVec<u8>>,
}

/// What a `ChunkDataAndUpdateLight` holds.
pub struct ChunkDataAndUpdateLightModel {
    pub chunk_x: i32,
    pub chunk_z: i32,
    pub heightmaps: Seq<u8>,
    pub data: Seq<u8>,
    pub block_entities: Seq<BlockEntityModel>,
    pub sky_light_mask: Seq<i64>,
    pub block_light_mask: Seq<i64>,
    pub empty_sky_light_mask: Seq<i64>,
    pub empty_block_light_mask: Seq<i64>,
    pub sky_lights: Seq<Seq<u8>>,
    pub block_lights: Seq<Seq<u8>>,
}

impl Prot for ChunkDataAndUpdateLight {
    type Model = ChunkDataAndUpdateLightModel;

    open spec fn model(&self) -> ChunkDataAndUpdateLightModel {
        ChunkDataAndUpdateLightModel {
            chunk_x: self.chunk_x.model(),
            chunk_z: self.chunk_z.model(),
            heightmaps: self.heightmaps.model(),
            data: self.data.model(),
            block_entities: self.block_entities.model(),
            sky_light_mask: self.sky_light_mask.model(),
            block_light_mask: self.block_light_mask.model(),
            empty_sky_light_mask: self.empty_sky_light_mask.model(),
            empty_block_light_mask: self.empty_block_light_mask.model(),
            sky_lights: self.sky_lights.model(),
            block_lights: self.block_lights.model(),
        }
    }

    open spec fn valid(m: ChunkDataAndUpdateLightModel) -> bool {
        &&& i32::valid(m.chunk_x)
        &&& i32::valid(m.chunk_z)
        &&& NbtCompound::valid(m.heightmaps)
        &&& SizedVec::<u8>::valid(m.data)
        &&& SizedVec::<BlockEntity>::valid(m.block_entities)
        &&& BitSet::valid(m.sky_light_mask)
        &&& BitSet::valid(m.block_light_mask)
        &&& BitSet::valid(m.empty_sky_light_mask)
        &&& BitSet::valid(m.empty_block_light_mask)
        &&& SizedVec::<SizedVec<u8>>::valid(m.sky_lights)
        &&& SizedVec::<SizedVec<u8>>::valid(m.block_lights)
    }

    open spec fn encoding(m: ChunkDataAndUpdateLightModel) -> Seq<u8> {
        i32::encoding(m.chunk_x)
            + i32::encoding(m.chunk_z)
            + NbtCompound::encoding(m.heightmaps)
            + SizedVec::<u8>::encoding(m.data)
            + SizedVec::<BlockEntity>::encoding(m.block_entities)
            + BitSet::encoding(m.sky_light_mask)
            + BitSet::encoding(m.block_light_mask)
            + BitSet::encoding(m.empty_sky_light_mask)
            + BitSet::encoding(m.empty_block_light_mask)
            + SizedVec::<SizedVec<u8>>::encoding(m.sky_lights)
            + SizedVec::<SizedVec<u8>>::encoding(m.block_lights)
    }
}

impl SizedProt for ChunkDataAndUpdateLight {
    fn is_valid(&self) -> (ok: bool) {
        self.chunk_x.is_valid()
            && self.chunk_z.is_valid()
            && self.heightmaps.is_valid()
            && self.data.is_valid()
            && self.block_entities.is_valid()
            && self.sky_light_mask.is_valid()
            && self.block_light_mask.is_valid()
            && self.empty_sky_light_mask.is_valid()
            && self.empty_block_light_mask.is_valid()
            && self.sky_lights.is_valid()
            && self.block_lights.is_valid()
    }

    fn prot_size(&self) -> (n: usize) {
        self.chunk_x.prot_size()
            + self.chunk_z.prot_size()
            + self.heightmaps.prot_size()
            + self.data.prot_size()
            + self.block_entities.prot_size()
            + self.sky_light_mask.prot_size()
            + self.block_light_mask.prot_size()
            + self.empty_sky_light_mask.prot_size()
            + self.empty_block_light_mask.prot_size()
            + self.sky_lights.prot_size()
            + self.block_lights.prot_size()
    }
}

impl WriteProt for ChunkDataAndUpdateLight {
    fn write(&self, out: &mut Vec<u8>) {
        self.chunk_x.write(out);
        self.chunk_z.write(out);
        self.heightmaps.write(out);
        self.data.write(out);
        self.block_entities.write(out);
        self.sky_light_mask.write(out);
        self.block_light_mask.write(out);
        self.empty_sky_light_mask.write(out);
        self.empty_block_light_mask.write(out);
        self.sky_lights.write(out);
        self.block_lights.write(out);
        proof {
            let m = self.model();
            lemma_concat_assoc(
                old(out)@,
                i32::encoding(m.chunk_x),
                i32::encoding(m.chunk_z),
            );
            lemma_concat_assoc(
                old(out)@,
                i32::encoding(m.chunk_x) + i32::encoding(m.chunk_z),
                NbtCompound::encoding(m.heightmaps),
            );
            lemma_concat_assoc(
                old(out)@,
                i32::encoding(m.chunk_x) + i32::encoding(m.chunk_z) + NbtCompound::encoding(m.heightmaps),
                SizedVec::<u8>::encoding(m.data),
            );
            lemma_concat_assoc(
                old(out)@,
                i32::encoding(m.chunk_x) + i32::encoding(m.chunk_z) + NbtCompound::encoding(m.heightmaps) + SizedVec::<u8>::encoding(m.data),
                SizedVec::<BlockEntity>::encoding(m.block_entities),
            );
            lemma_concat_assoc(
                old(out)@,
                i32::encoding(m.chunk_x) + i32::encoding(m.chunk_z) + NbtCompound::encoding(m.heightmaps) + SizedVec::<u8>::encoding(m.data) + SizedVec::<BlockEntity>::encoding(m.block_entities),
                BitSet::encoding(m.sky_light_mask),
            );
            lemma_concat_assoc(
                old(out)@,
                i32::encoding(m.chunk_x) + i32::encoding(m.chunk_z) + NbtCompound::encoding(m.heightmaps) + SizedVec::<u8>::encoding(m.data) + SizedVec::<BlockEntity>::encoding(m.block_entities) + BitSet::encoding(m.sky_light_mask),
                BitSet::encoding(m.block_light_mask),
            );
            lemma_concat_assoc(
                old(out)@,
                i32::encoding(m.chunk_x) + i32::encoding(m.chunk_z) + NbtCompound::encoding(m.heightmaps) + SizedVec::<u8>::encoding(m.data) + SizedVec::<BlockEntity>::encoding(m.block_entities) + BitSet::encoding(m.sky_light_mask) + BitSet::encoding(m.block_light_mask),
                BitSet::encoding(m.empty_sky_light_mask),
            );
            lemma_concat_assoc(
                old(out)@,
                i32::encoding(m.chunk_x) + i32::encoding(m.chunk_z) + NbtCompound::encoding(m.heightmaps) + SizedVec::<u8>::encoding(m.data) + SizedVec::<BlockEntity>::encoding(m.block_entities) + BitSet::encoding(m.sky_light_mask) + BitSet::encoding(m.block_light_mask) + BitSet::encoding(m.empty_sky_light_mask),
                BitSet::encoding(m.empty_block_light_mask),
            );
            lemma_concat_assoc(
                old(out)@,
                i32::encoding(m.chunk_x) + i32::encoding(m.chunk_z) + NbtCompound::encoding(m.heightmaps) + SizedVec::<u8>::encoding(m.data) + SizedVec::<BlockEntity>::encoding(m.block_entities) + BitSet::encoding(m.sky_light_mask) + BitSet::encoding(m.block_light_mask) + BitSet::encoding(m.empty_sky_light_mask) + BitSet::encoding(m.empty_block_light_mask),
                SizedVec::<SizedVec<u8>>::encoding(m.sky_lights),
            );
            lemma_concat_assoc(
                old(out)@,
                i32::encoding(m.chunk_x) + i32::encoding(m.chunk_z) + NbtCompound::encoding(m.heightmaps) + SizedVec::<u8>::encoding(m.data) + SizedVec::<BlockEntity>::encoding(m.block_entities) + BitSet::encoding(m.sky_light_mask) + BitSet::encoding(m.block_light_mask) + BitSet::encoding(m.empty_sky_light_mask) + BitSet::encoding(m.empty_block_light_mask) + SizedVec::<SizedVec<u8>>::encoding(m.sky_lights),
                SizedVec::<SizedVec<u8>>::encoding(m.block_lights),
            );
        }
    }
}

impl ClientPacket for ChunkDataAndUpdateLight {
    open spec fn spec_id() -> u8 {
        0x25
    }

    fn id() -> (id: u8) {
        0x25
    }
}

impl ChunkDataAndUpdateLight {
    pub fn new(
        chunk_x: i32,
        chunk_z: i32,
        heightmaps: NbtCompound,
        data: SizedVec<u8>,
        block_entities: SizedVec<BlockEntity>,
        sky_light_mask: BitSet,
        block_light_mask: BitSet,
        empty_sky_light_mask: BitSet,
        empty_block_light_mask: BitSet,
        sky_lights: SizedVec<SizedVec<u8>>,
        block_lights: SizedVec<SizedVec<u8>>,
    ) -> (packet: ChunkDataAndUpdateLight)
        ensures
            packet.chunk_x == chunk_x,
            packet.chunk_z == chunk_z,
            packet.heightmaps == heightmaps,
            packet.data == data,
            packet.block_entities == block_entities,
            packet.sky_light_mask == sky_light_mask,
            packet.block_light_mask == block_light_mask,
            packet.empty_sky_light_mask == empty_sky_light_mask,
            packet.empty_block_light_mask == empty_block_light_mask,
            packet.sky_lights == sky_lights,
            packet.block_lights == block_lights,
    {
        ChunkDataAndUpdateLight { chunk_x, chunk_z, heightmaps, data, block_entities, sky_light_mask, block_light_mask, empty_sky_light_mask, empty_block_light_mask, sky_lights, block_lights }
    }
}

/// The chunk column around which the client loads the world.
#[derive(Clone, Copy, Debug, PartialEq, Eq, Structural)]
pub struct SetCenterChunk {
    pub x: VarInt,
    pub y: VarInt,
}

impl Prot for SetCenterChunk {
    type Model = SetCenterChunk;

    open spec fn model(&self) -> SetCenterChunk {
        *self
    }

    open spec fn valid(m: SetCenterChunk) -> bool {
        &&& VarInt::valid(m.x)
        &&& VarInt::valid(m.y)
    }

    open spec fn encoding(m: SetCenterChunk) -> Seq<u8> {
        VarInt::encoding(m.x)
            + VarInt::encoding(m.y)
    }
}

impl SizedProt for SetCenterChunk {
    fn is_valid(&self) -> (ok: bool) {
        self.x.is_valid()
            && self.y.is_valid()
    }

    fn prot_size(&self) -> (n: usize) {
        self.x.prot_size()
            + self.y.prot_size()
    }
}

impl WriteProt for SetCenterChunk {
    fn write(&self, out: &mut Vec<u8>) {
        self.x.write(out);
        self.y.write(out);
        proof {
            let m = self.model();
            lemma_concat_assoc(
                old(out)@,
                VarInt::encoding(m.x),
                VarInt::encoding(m.y),
            );
        }
    }
}

impl ClientPacket for SetCenterChunk {
    open spec fn spec_id() -> u8 {
        0x50
    }

    fn id() -> (id: u8) {
        0x50
    }
}

impl SetCenterChunk {
    pub fn new(x: VarInt, y: VarInt) -> (packet: SetCenterChunk)
        ensures
            packet.x == x,
            packet.y == y,
    {
        SetCenterChunk { x, y }
    }
}

/// Where players come into the world.
#[derive(Clone, Copy, Debug, PartialEq, Eq, Structural)]
pub struct SetDefaultSpawnPosition {
    pub location: Position,
    pub angle: Float,
}

impl Prot for SetDefaultSpawnPosition {
    type Model = SetDefaultSpawnPosition;

    open spec fn model(&self) -> SetDefaultSpawnPosition {
        *self
    }

    open spec fn valid(m: SetDefaultSpawnPosition) -> bool {
        &&& Position::valid(m.location)
        &&& Float::valid(m.angle)
    }

    open spec fn encoding(m: SetDefaultSpawnPosition) -> Seq<u8> {
        Position::encoding(m.location)
            + Float::encoding(m.angle)
    }
}

impl SizedProt for SetDefaultSpawnPosition {
    fn is_valid(&self) -> (ok: bool) {
        self.location.is_valid()
            && self.angle.is_valid()
    }

    fn prot_size(&self) -> (n: usize) {
        self.location.prot_size()
            + self.angle.prot_size()
    }
}

impl WriteProt for SetDefaultSpawnPosition {
    fn write(&self, out: &mut Vec<u8>) {
        self.location.write(out);
        self.angle.write(out);
        proof {
            let m = self.model();
            lemma_concat_assoc(
                old(out)@,
                Position::encoding(m.location),
                Float::encoding(m.angle),
            );
        }
    }
}

impl ClientPacket for SetDefaultSpawnPosition {
    open spec fn spec_id() -> u8 {
        0x52
    }

    fn id() -> (id: u8) {
        0x52
    }
}

impl SetDefaultSpawnPosition {
    pub fn new(location: Position, angle: Float) -> (packet: SetDefaultSpawnPosition)
        ensures
            packet.location == location,
            packet.angle == angle,
    {
        SetDefaultSpawnPosition { location, angle }
    }
}

/// A chat message without a signature. The name of the target is there
/// exactly if `has_target_name` says so.
#[derive(Debug)]
pub struct DisguisedChatMessage {
    pub message: Chat,
    pub chat_type: VarInt,
    pub sender_name: Chat,
    pub has_target_name: bool,
    pub target_name: Option<Chat>,
}

/// What a `DisguisedChatMessage` holds.
pub struct DisguisedChatMessageModel {
    pub message: Seq<char>,
    pub chat_type: VarInt,
    pub sender_name: Seq<char>,
    pub has_target_name: bool,
    pub target_name: Option<Seq<char>>,
}

impl Prot for DisguisedChatMessage {
    type Model = DisguisedChatMessageModel;

    open spec fn model(&self) -> DisguisedChatMessageModel {
        DisguisedChatMessageModel {
            message: self.message.model(),
            chat_type: self.chat_type.model(),
            sender_name: self.sender_name.model(),
            has_target_name: self.has_target_name.model(),
            target_name: self.target_name.model(),
        }
    }

    open spec fn valid(m: DisguisedChatMessageModel) -> bool {
        &&& Chat::valid(m.message)
        &&& VarInt::valid(m.chat_type)
        &&& Chat::valid(m.sender_name)
        &&& bool::valid(m.has_target_name)
        &&& Option::<Chat>::valid(m.target_name)
        &&& (m.target_name is Some <==> m.has_target_name)
    }

    open spec fn encoding(m: DisguisedChatMessageModel) -> Seq<u8> {
        Chat::encoding(m.message)
            + VarInt::encoding(m.chat_type)
            + Chat::encoding(m.sender_name)
            + bool::encoding(m.has_target_name)
            + Option::<Chat>::encoding(m.target_name)
    }
}

impl SizedProt for DisguisedChatMessage {
    fn is_valid(&self) -> (ok: bool) {
        self.message.is_valid()
            && self.chat_type.is_valid()
            && self.sender_name.is_valid()
            && self.has_target_name.is_valid()
            && self.target_name.is_valid()
            && self.target_name.is_some() == self.has_target_name
    }

    fn prot_size(&self) -> (n: usize) {
        self.message.prot_size()
            + self.chat_type.prot_size()
            + self.sender_name.prot_size()
            + self.has_target_name.prot_size()
            + self.target_name.prot_size()
    }
}

impl WriteProt for DisguisedChatMessage {
    fn write(&self, out: &mut Vec<u8>) {
        self.message.write(out);
        self.chat_type.write(out);
        self.sender_name.write(out);
        self.has_target_name.write(out);
        self.target_name.write(out);
        proof {
            let m = self.model();
            lemma_concat_assoc(
                old(out)@,
                Chat::encoding(m.message),
                VarInt::encoding(m.chat_type),
            );
            lemma_concat_assoc(
                old(out)@,
                Chat::encoding(m.message) + VarInt::encoding(m.chat_type),
                Chat::encoding(m.sender_name),
            );
            lemma_concat_assoc(
                old(out)@,
                Chat::encoding(m.message) + VarInt::encoding(m.chat_type) + Chat::encoding(m.sender_name),
                bool::encoding(m.has_target_name),
            );
            lemma_concat_assoc(
                old(out)@,
                Chat::encoding(m.message) + VarInt::encoding(m.chat_type) + Chat::encoding(m.sender_name) + bool::encoding(m.has_target_name),
                Option::<Chat>::encoding(m.target_name),
            );
        }
    }
}

impl ClientPacket for DisguisedChatMessage {
    open spec fn spec_id() -> u8 {
        0x1c
    }

    fn id() -> (id: u8) {
        0x1c
    }
}

impl DisguisedChatMessage {
    pub fn new(
        message: Chat,
        chat_type: VarInt,
        sender_name: Chat,
        has_target_name: bool,
        target_name: Option<Chat>,
    ) -> (packet: DisguisedChatMessage)
        ensures
            packet.message == message,
            packet.chat_type == chat_type,
            packet.sender_name == sender_name,
            packet.has_target_name == has_target_name,
            packet.target_name == target_name,
    {
        DisguisedChatMessage { message, chat_type, sender_name, has_target_name, target_name }
    }
}

/// Something that happened in the game.
#[derive(Clone, Copy, Debug, PartialEq, Eq, Structural)]
pub struct SendGameEvent {
    pub event: GameEvent,
}

impl Prot for SendGameEvent {
    type Model = SendGameEvent;

    open spec fn model(&self) -> SendGameEvent {
        *self
    }

    open spec fn valid(m: SendGameEvent) -> bool {
        &&& GameEvent::valid(m.event)
    }

    open spec fn encoding(m: SendGameEvent) -> Seq<u8> {
        GameEvent::encoding(m.event)
    }
}

impl SizedProt for SendGameEvent {
    fn is_valid(&self) -> (ok: bool) {
        self.event.is_valid()
    }

    fn prot_size(&self) -> (n: usize) {
        self.event.prot_size()
    }
}

impl WriteProt for SendGameEvent {
    fn write(&self, out: &mut Vec<u8>) {
        self.event.write(out);
    }
}

impl ClientPacket for SendGameEvent {
    open spec fn spec_id() -> u8 {
        0x20
    }

    fn id() -> (id: u8) {
        0x20
    }
}

impl SendGameEvent {
    pub fn new(event: GameEvent) -> (packet: SendGameEvent)
        ensures
            packet.event == event,
    {
        SendGameEvent { event }
    }
}

/// The block at `position` is now `block_id`.
#[derive(Clone, Copy, Debug, PartialEq, Eq, Structural)]
pub struct BlockUpdate {
    pub position: Position,
    pub block_id: VarInt,
}

impl Prot for BlockUpdate {
    type Model = BlockUpdate;

    open spec fn model(&self) -> BlockUpdate {
        *self
    }

    open spec fn valid(m: BlockUpdate) -> bool {
        &&& Position::valid(m.position)
        &&& VarInt::valid(m.block_id)
    }

    open spec fn encoding(m: BlockUpdate) -> Seq<u8> {
        Position::encoding(m.position)
            + VarInt::encoding(m.block_id)
    }
}

impl SizedProt for BlockUpdate {
    fn is_valid(&self) -> (ok: bool) {
        self.position.is_valid()
            && self.block_id.is_valid()
    }

    fn prot_size(&self) -> (n: usize) {
        self.position.prot_size()
            + self.block_id.prot_size()
    }
}

impl WriteProt for BlockUpdate {
    fn write(&self, out: &mut Vec<u8>) {
        self.position.write(out);
        self.block_id.write(out);
        proof {
            let m = self.model();
            lemma_concat_assoc(
                old(out)@,
                Position::encoding(m.position),
                VarInt::encoding(m.block_id),
            );
        }
    }
}

impl ClientPacket for BlockUpdate {
    open spec fn spec_id() -> u8 {
        0x09
    }

    fn id() -> (id: u8) {
        0x09
    }
}

impl BlockUpdate {
    pub fn new(position: Position, block_id: VarInt) -> (packet: BlockUpdate)
        ensures
            packet.position == position,
            packet.block_id == block_id,
    {
        BlockUpdate { position, block_id }
    }
}

/// The packets that the server can send.
#[derive(Debug)]
pub enum ClientPackets {
    StatusRes(StatusRes),
    PingRes(PingRes),
    EncryptionReq(EncryptionReq),
    LoginSuccess(LoginSuccess),
    ConfigurationKeepAlive(ConfigurationKeepAlive),
    ConfigurationFinish(ConfigurationFinish),
    RegistryData(RegistryData),
    PlayLogin(PlayLogin),
    PlayKeepAlive(PlayKeepAlive),
    SetHeldItem(SetHeldItem),
    UpdateRecipes(UpdateRecipes),
    UpdateTags(UpdateTags),
    SynchronizePlayerPosition(SynchronizePlayerPosition),
    ChunkDataAndUpdateLight(ChunkDataAndUpdateLight),
    SetCenterChunk(SetCenterChunk),
    SetDefaultSpawnPosition(SetDefaultSpawnPosition),
    DisguisedChatMessage(DisguisedChatMessage),
    SendGameEvent(SendGameEvent),
    BlockUpdate(BlockUpdate),
}

/// A packet on the wire: the length of what follows as a VarInt, the id as
/// a VarInt, then the bytes of the fields.
pub open spec fn frame(id: u8, fields: Seq<u8>) -> Seq<u8> {
    let id = VarInt::encoding(VarInt { value: id as i32 });
    VarInt::encoding(VarInt { value: (id.len() + fields.len()) as i32 }) + id + fields
}

/// Whether the id and fields of this many bytes fit the length of a frame.
pub open spec fn frame_fits(id: u8, fields: Seq<u8>) -> bool {
    VarInt::encoding(VarInt { value: id as i32 }).len() + fields.len() <= i32::MAX
}

/// Appends the frame of `id` and `fields` to `out`.
pub fn write_frame(id: u8, fields: &[u8], out: &mut Vec<u8>)
    requires
        frame_fits(id, fields@),
    ensures
        final(out)@ == old(out)@ + frame(id, fields@),
{
    let id = VarInt { value: id as i32 };
    let size = id.prot_size() + fields.len();
    (VarInt { value: size as i32 }).write(out);
    id.write(out);
    append_bytes(out, fields);
    proof {
        let head = VarInt::encoding(id);
        let length = VarInt::encoding(VarInt { value: (head.len() + fields@.len()) as i32 });
        lemma_concat_assoc(old(out)@, length, head);
        lemma_concat_assoc(old(out)@, length + head, fields@);
    }
}

impl ClientPackets {
    /// The id under which this packet travels.
    pub open spec fn spec_id(&self) -> u8 {
        match self {
            ClientPackets::StatusRes(_) => StatusRes::spec_id(),
            ClientPackets::PingRes(_) => PingRes::spec_id(),
            ClientPackets::EncryptionReq(_) => EncryptionReq::spec_id(),
            ClientPackets::LoginSuccess(_) => LoginSuccess::spec_id(),
            ClientPackets::ConfigurationKeepAlive(_) => ConfigurationKeepAlive::spec_id(),
            ClientPackets::ConfigurationFinish(_) => ConfigurationFinish::spec_id(),
            ClientPackets::RegistryData(_) => RegistryData::spec_id(),
            ClientPackets::PlayLogin(_) => PlayLogin::spec_id(),
            ClientPackets::PlayKeepAlive(_) => PlayKeepAlive::spec_id(),
            ClientPackets::SetHeldItem(_) => SetHeldItem::spec_id(),
            ClientPackets::UpdateRecipes(_) => UpdateRecipes::spec_id(),
            ClientPackets::UpdateTags(_) => UpdateTags::spec_id(),
            ClientPackets::SynchronizePlayerPosition(_) => SynchronizePlayerPosition::spec_id(),
            ClientPackets::ChunkDataAndUpdateLight(_) => ChunkDataAndUpdateLight::spec_id(),
            ClientPackets::SetCenterChunk(_) => SetCenterChunk::spec_id(),
            ClientPackets::SetDefaultSpawnPosition(_) => SetDefaultSpawnPosition::spec_id(),
            ClientPackets::DisguisedChatMessage(_) => DisguisedChatMessage::spec_id(),
            ClientPackets::SendGameEvent(_) => SendGameEvent::spec_id(),
            ClientPackets::BlockUpdate(_) => BlockUpdate::spec_id(),
        }
    }

    /// Whether the format admits what this packet holds.
    pub open spec fn valid(&self) -> bool {
        match self {
            ClientPackets::StatusRes(p) => StatusRes::valid(p.model()),
            ClientPackets::PingRes(p) => PingRes::valid(p.model()),
            ClientPackets::EncryptionReq(p) => EncryptionReq::valid(p.model()),
            ClientPackets::LoginSuccess(p) => LoginSuccess::valid(p.model()),
            ClientPackets::ConfigurationKeepAlive(p) => ConfigurationKeepAlive::valid(p.model()),
            ClientPackets::ConfigurationFinish(p) => ConfigurationFinish::valid(p.model()),
            ClientPackets::RegistryData(p) => RegistryData::valid(p.model()),
            ClientPackets::PlayLogin(p) => PlayLogin::valid(p.model()),
            ClientPackets::PlayKeepAlive(p) => PlayKeepAlive::valid(p.model()),
            ClientPackets::SetHeldItem(p) => SetHeldItem::valid(p.model()),
            ClientPackets::UpdateRecipes(p) => UpdateRecipes::valid(p.model()),
            ClientPackets::UpdateTags(p) => UpdateTags::valid(p.model()),
            ClientPackets::SynchronizePlayerPosition(p) => SynchronizePlayerPosition::valid(p.model()),
            ClientPackets::ChunkDataAndUpdateLight(p) => ChunkDataAndUpdateLight::valid(p.model()),
            ClientPackets::SetCenterChunk(p) => SetCenterChunk::valid(p.model()),
            ClientPackets::SetDefaultSpawnPosition(p) => SetDefaultSpawnPosition::valid(p.model()),
            ClientPackets::DisguisedChatMessage(p) => DisguisedChatMessage::valid(p.model()),
            ClientPackets::SendGameEvent(p) => SendGameEvent::valid(p.model()),
            ClientPackets::BlockUpdate(p) => BlockUpdate::valid(p.model()),
        }
    }

    /// The bytes of the fields of this packet.
    pub open spec fn fields(&self) -> Seq<u8> {
        match self {
            ClientPackets::StatusRes(p) => StatusRes::encoding(p.model()),
            ClientPackets::PingRes(p) => PingRes::encoding(p.model()),
            ClientPackets::EncryptionReq(p) => EncryptionReq::encoding(p.model()),
            ClientPackets::LoginSuccess(p) => LoginSuccess::encoding(p.model()),
            ClientPackets::ConfigurationKeepAlive(p) => ConfigurationKeepAlive::encoding(p.model()),
            ClientPackets::ConfigurationFinish(p) => ConfigurationFinish::encoding(p.model()),
            ClientPackets::RegistryData(p) => RegistryData::encoding(p.model()),
            ClientPackets::PlayLogin(p) => PlayLogin::encoding(p.model()),
            ClientPackets::PlayKeepAlive(p) => PlayKeepAlive::encoding(p.model()),
            ClientPackets::SetHeldItem(p) => SetHeldItem::encoding(p.model()),
            ClientPackets::UpdateRecipes(p) => UpdateRecipes::encoding(p.model()),
            ClientPackets::UpdateTags(p) => UpdateTags::encoding(p.model()),
            ClientPackets::SynchronizePlayerPosition(p) => SynchronizePlayerPosition::encoding(p.model()),
            ClientPackets::ChunkDataAndUpdateLight(p) => ChunkDataAndUpdateLight::encoding(p.model()),
            ClientPackets::SetCenterChunk(p) => SetCenterChunk::encoding(p.model()),
            ClientPackets::SetDefaultSpawnPosition(p) => SetDefaultSpawnPosition::encoding(p.model()),
            ClientPackets::DisguisedChatMessage(p) => DisguisedChatMessage::encoding(p.model()),
            ClientPackets::SendGameEvent(p) => SendGameEvent::encoding(p.model()),
            ClientPackets::BlockUpdate(p) => BlockUpdate::encoding(p.model()),
        }
    }

    /// Whether this packet can be sent: the format admits it and its frame
    /// can say how long it is.
    pub open spec fn sendable(&self) -> bool {
        self.valid() && frame_fits(self.spec_id(), self.fields())
    }

    /// This packet on the wire.
    pub open spec fn spec_frame(&self) -> Seq<u8> {
        frame(self.spec_id(), self.fields())
    }

    /// The id under which this packet travels.
    pub fn id(&self) -> (id: u8)
        ensures
            id == self.spec_id(),
    {
        match self {
            ClientPackets::StatusRes(_) => StatusRes::id(),
            ClientPackets::PingRes(_) => PingRes::id(),
            ClientPackets::EncryptionReq(_) => EncryptionReq::id(),
            ClientPackets::LoginSuccess(_) => LoginSuccess::id(),
            ClientPackets::ConfigurationKeepAlive(_) => ConfigurationKeepAlive::id(),
            ClientPackets::ConfigurationFinish(_) => ConfigurationFinish::id(),
            ClientPackets::RegistryData(_) => RegistryData::id(),
            ClientPackets::PlayLogin(_) => PlayLogin::id(),
            ClientPackets::PlayKeepAlive(_) => PlayKeepAlive::id(),
            ClientPackets::SetHeldItem(_) => SetHeldItem::id(),
            ClientPackets::UpdateRecipes(_) => UpdateRecipes::id(),
            ClientPackets::UpdateTags(_) => UpdateTags::id(),
            ClientPackets::SynchronizePlayerPosition(_) => SynchronizePlayerPosition::id(),
            ClientPackets::ChunkDataAndUpdateLight(_) => ChunkDataAndUpdateLight::id(),
            ClientPackets::SetCenterChunk(_) => SetCenterChunk::id(),
            ClientPackets::SetDefaultSpawnPosition(_) => SetDefaultSpawnPosition::id(),
            ClientPackets::DisguisedChatMessage(_) => DisguisedChatMessage::id(),
            ClientPackets::SendGameEvent(_) => SendGameEvent::id(),
            ClientPackets::BlockUpdate(_) => BlockUpdate::id(),
        }
    }

    /// Whether the format admits what this packet holds.
    pub fn is_valid(&self) -> (ok: bool)
        ensures
            ok == self.valid(),
    {
        match self {
            ClientPackets::StatusRes(p) => p.is_valid(),
            ClientPackets::PingRes(p) => p.is_valid(),
            ClientPackets::EncryptionReq(p) => p.is_valid(),
            ClientPackets::LoginSuccess(p) => p.is_valid(),
            ClientPackets::ConfigurationKeepAlive(p) => p.is_valid(),
            ClientPackets::ConfigurationFinish(p) => p.is_valid(),
            ClientPackets::RegistryData(p) => p.is_valid(),
            ClientPackets::PlayLogin(p) => p.is_valid(),
            ClientPackets::PlayKeepAlive(p) => p.is_valid(),
            ClientPackets::SetHeldItem(p) => p.is_valid(),
            ClientPackets::UpdateRecipes(p) => p.is_valid(),
            ClientPackets::UpdateTags(p) => p.is_valid(),
            ClientPackets::SynchronizePlayerPosition(p) => p.is_valid(),
            ClientPackets::ChunkDataAndUpdateLight(p) => p.is_valid(),
            ClientPackets::SetCenterChunk(p) => p.is_valid(),
            ClientPackets::SetDefaultSpawnPosition(p) => p.is_valid(),
            ClientPackets::DisguisedChatMessage(p) => p.is_valid(),
            ClientPackets::SendGameEvent(p) => p.is_valid(),
            ClientPackets::BlockUpdate(p) => p.is_valid(),
        }
    }

    /// Appends the bytes of the fields of this packet to `out`.
    pub fn write_fields(&self, out: &mut Vec<u8>)
        requires
            self.valid(),
        ensures
            final(out)@ == old(out)@ + self.fields(),
    {
        match self {
            ClientPackets::StatusRes(p) => p.write(out),
            ClientPackets::PingRes(p) => p.write(out),
            ClientPackets::EncryptionReq(p) => p.write(out),
            ClientPackets::LoginSuccess(p) => p.write(out),
            ClientPackets::ConfigurationKeepAlive(p) => p.write(out),
            ClientPackets::ConfigurationFinish(p) => p.write(out),
            ClientPackets::RegistryData(p) => p.write(out),
            ClientPackets::PlayLogin(p) => p.write(out),
            ClientPackets::PlayKeepAlive(p) => p.write(out),
            ClientPackets::SetHeldItem(p) => p.write(out),
            ClientPackets::UpdateRecipes(p) => p.write(out),
            ClientPackets::UpdateTags(p) => p.write(out),
            ClientPackets::SynchronizePlayerPosition(p) => p.write(out),
            ClientPackets::ChunkDataAndUpdateLight(p) => p.write(out),
            ClientPackets::SetCenterChunk(p) => p.write(out),
            ClientPackets::SetDefaultSpawnPosition(p) => p.write(out),
            ClientPackets::DisguisedChatMessage(p) => p.write(out),
            ClientPackets::SendGameEvent(p) => p.write(out),
            ClientPackets::BlockUpdate(p) => p.write(out),
        }
    }

    /// Appends this packet to `out` as it travels: its fields go to a buffer
    /// of their own first, and the length and the id in front of them.
    pub fn write(&self, out: &mut Vec<u8>)
        requires
            self.sendable(),
        ensures
            final(out)@ == old(out)@ + self.spec_frame(),
    {
        let mut buf: Vec<u8> = Vec::new();
        self.write_fields(&mut buf);
        assert(buf@ =~= self.fields());
        write_frame(self.id(), buf.as_slice(), out);
    }

    /// This packet as it travels, or nothing if it cannot be sent.
    pub fn framed(&self) -> (r: Option<Vec<u8>>)
        ensures
            r is Some <==> self.sendable(),
            r matches Some(bytes) ==> bytes@ == self.spec_frame(),
    {
        if !self.is_valid() {
            return None;
        }
        let mut buf: Vec<u8> = Vec::new();
        self.write_fields(&mut buf);
        assert(buf@ =~= self.fields());
        let id = VarInt { value: self.id() as i32 };
        if buf.len() > i32::MAX as usize - id.prot_size() {
            return None;
        }
        let mut out: Vec<u8> = Vec::new();
        write_frame(self.id(), buf.as_slice(), &mut out);
        assert(out@ =~= self.spec_frame());
        Some(out)
    }
}

} // verus!
