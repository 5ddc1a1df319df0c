use crate::connection::ConnectionState;
use crate::err::CodecError;
use crate::protocol_types::compound::Uuid;
use crate::protocol_types::numbers::{Double, Float};
use crate::protocol_types::primitives::VarInt;
use crate::protocol_types::sequences::SizedVec;
use crate::protocol_types::traits::{
    lemma_concat_assoc, Prot, ReadProt, ServerPacket, SizedProt,
};
use vstd::prelude::*;

verus! {

/// The first packet of a connection: what the client speaks, whom it
/// thinks it is talking to, and what it wants next.
#[derive(Debug)]
pub struct Handshake {
    pub prot_version: VarInt,
    pub server_address: String,
    pub server_port: u16,
    pub next_state: VarInt,
}

/// What a `Handshake` holds.
pub struct HandshakeModel {
    pub prot_version: VarInt,
    pub server_address: Seq<char>,
    pub server_port: u16,
    pub next_state: VarInt,
}

impl Prot for Handshake {
    type Model = HandshakeModel;

    open spec fn model(&self) -> HandshakeModel {
        HandshakeModel {
            prot_version: self.prot_version.model(),
            server_address: self.server_address.model(),
            server_port: self.server_port.model(),
            next_state: self.next_state.model(),
        }
    }

    open spec fn valid(m: HandshakeModel) -> bool {
        &&& VarInt::valid(m.prot_version)
        &&& String::valid(m.server_address)
        &&& u16::valid(m.server_port)
        &&& VarInt::valid(m.next_state)
    }

    open spec fn encoding(m: HandshakeModel) -> Seq<u8> {
        VarInt::encoding(m.prot_version)
            + String::encoding(m.server_address)
            + u16::encoding(m.server_port)
            + VarInt::encoding(m.next_state)
    }
}

impl SizedProt for Handshake {
    fn is_valid(&self) -> (ok: bool) {
        self.prot_version.is_valid()
            && self.server_address.is_valid()
            && self.server_port.is_valid()
            && self.next_state.is_valid()
    }

    fn prot_size(&self) -> (n: usize) {
        self.prot_version.prot_size()
            + self.server_address.prot_size()
            + self.server_port.prot_size()
            + self.next_state.prot_size()
    }
}

impl ReadProt for Handshake {
    open spec fn decoding(s: Seq<u8>, pos: int) -> Result<(HandshakeModel, int), CodecError> {
        match VarInt::decoding(s, pos) {
            Err(e) => Err(e),
            Ok((prot_version, p1)) => {
                match String::decoding(s, p1) {
                    Err(e) => Err(e),
                    Ok((server_address, p2)) => {
                        match u16::decoding(s, p2) {
                            Err(e) => Err(e),
                            Ok((server_port, p3)) => {
                                match VarInt::decoding(s, p3) {
                                    Err(e) => Err(e),
                                    Ok((next_state, next)) => Ok((HandshakeModel { prot_version, server_address, server_port, next_state }, next)),
                                }
                            },
                        }
                    },
                }
            },
        }
    }

    proof fn lemma_decoding_sound(s: Seq<u8>, pos: int) {
        VarInt::lemma_decoding_sound(s, pos);
        match VarInt::decoding(s, pos) {
            Ok((prot_version, p1)) => {
                String::lemma_decoding_sound(s, p1);
                match String::decoding(s, p1) {
                    Ok((server_address, p2)) => {
                        u16::lemma_decoding_sound(s, p2);
                        match u16::decoding(s, p2) {
                            Ok((server_port, p3)) => {
                                VarInt::lemma_decoding_sound(s, p3);
                            },
                            Err(_) => {},
                        }
                    },
                    Err(_) => {},
                }
            },
            Err(_) => {},
        }
    }

    proof fn lemma_round_trip(m: HandshakeModel, pre: Seq<u8>, rest: Seq<u8>) {
        let e0 = VarInt::encoding(m.prot_version);
        let e1 = String::encoding(m.server_address);
        let e2 = u16::encoding(m.server_port);
        let e3 = VarInt::encoding(m.next_state);
        let p0 = pre;
        let p1 = p0 + e0;
        let p2 = p1 + e1;
        let p3 = p2 + e2;
        let r3 = rest;
        let r2 = e3 + r3;
        let r1 = e2 + r2;
        let r0 = e1 + r1;
        lemma_concat_assoc(pre, e0, e1);
        lemma_concat_assoc(pre, e0 + e1, e2);
        lemma_concat_assoc(pre, e0 + e1 + e2, e3);
        lemma_concat_assoc(p3, e3, r3);
        lemma_concat_assoc(p2, e2, r2);
        lemma_concat_assoc(p1, e1, r1);
        VarInt::lemma_round_trip(m.prot_version, p0, r0);
        String::lemma_round_trip(m.server_address, p1, r1);
        u16::lemma_round_trip(m.server_port, p2, r2);
        VarInt::lemma_round_trip(m.next_state, p3, r3);
    }

    fn read(src: &[u8], pos: usize) -> (r: Result<(Handshake, usize), CodecError>) {
        proof {
            VarInt::lemma_decoding_sound(src@, pos as int);
        }
        let (prot_version, p1) = match VarInt::read(src, pos) {
            Ok(found) => found,
            Err(e) => {
                return Err(e);
            },
        };
        proof {
            String::lemma_decoding_sound(src@, p1 as int);
        }
        let (server_address, p2) = match String::read(src, p1) {
            Ok(found) => found,
            Err(e) => {
                return Err(e);
            },
        };
        proof {
            u16::lemma_decoding_sound(src@, p2 as int);
        }
        let (server_port, p3) = match u16::read(src, p2) {
            Ok(found) => found,
            Err(e) => {
                return Err(e);
            },
        };
        proof {
            VarInt::lemma_decoding_sound(src@, p3 as int);
        }
        let (next_state, next) = match VarInt::read(src, p3) {
            Ok(found) => found,
            Err(e) => {
                return Err(e);
            },
        };
        Ok((Handshake { prot_version, server_address, server_port, next_state }, next))
    }
}

impl ServerPacket for Handshake {
    open spec fn spec_id() -> u8 {
        0x00
    }

    fn id() -> (id: u8) {
        0x00
    }
}

/// Asks for the status of the server.
#[derive(Clone, Copy, Debug, PartialEq, Eq, Structural)]
pub struct StatusReq {}

impl Prot for StatusReq {
    type Model = StatusReq;

    open spec fn model(&self) -> StatusReq {
        *self
    }

    open spec fn valid(m: StatusReq) -> bool {
        true
    }

    open spec fn encoding(m: StatusReq) -> Seq<u8> {
        Seq::empty()
    }
}

impl SizedProt for StatusReq {
    fn is_valid(&self) -> (ok: bool) {
        true
    }

    fn prot_size(&self) -> (n: usize) {
        0
    }
}

impl ReadProt for StatusReq {
    open spec fn decoding(s: Seq<u8>, pos: int) -> Result<(StatusReq, int), CodecError> {
        Ok((StatusReq {  }, pos))
    }

    proof fn lemma_decoding_sound(s: Seq<u8>, pos: int) {
    }

    proof fn lemma_round_trip(m: StatusReq, pre: Seq<u8>, rest: Seq<u8>) {
    }

    fn read(src: &[u8], pos: usize) -> (r: Result<(StatusReq, usize), CodecError>) {
        Ok((StatusReq {  }, pos))
    }
}

impl ServerPacket for StatusReq {
    open spec fn spec_id() -> u8 {
        0x00
    }

    fn id() -> (id: u8) {
        0x00
    }
}

/// Asks for `payload` to be sent back.
#[derive(Clone, Copy, Debug, PartialEq, Eq, Structural)]
pub struct PingReq {
    pub payload: i64,
}

impl Prot for PingReq {
    type Model = PingReq;

    open spec fn model(&self) -> PingReq {
        *self
    }

    open spec fn valid(m: PingReq) -> bool {
        &&& i64::valid(m.payload)
    }

    open spec fn encoding(m: PingReq) -> Seq<u8> {
        i64::encoding(m.payload)
    }
}

impl SizedProt for PingReq {
    fn is_valid(&self) -> (ok: bool) {
        self.payload.is_valid()
    }

    fn prot_size(&self) -> (n: usize) {
        self.payload.prot_size()
    }
}

impl ReadProt for PingReq {
    open spec fn decoding(s: Seq<u8>, pos: int) -> Result<(PingReq, int), CodecError> {
        match i64::decoding(s, pos) {
            Err(e) => Err(e),
            Ok((payload, next)) => Ok((PingReq { payload }, next)),
        }
    }

    proof fn lemma_decoding_sound(s: Seq<u8>, pos: int) {
        i64::lemma_decoding_sound(s, pos);
    }

    proof fn lemma_round_trip(m: PingReq, pre: Seq<u8>, rest: Seq<u8>) {
        i64::lemma_round_trip(m.payload, pre, rest);
    }

    fn read(src: &[u8], pos: usize) -> (r: Result<(PingReq, usize), CodecError>) {
        proof {
            i64::lemma_decoding_sound(src@, pos as int);
        }
        let (payload, next) = match i64::read(src, pos) {
            Ok(found) => found,
            Err(e) => {
                return Err(e);
            },
        };
        Ok((PingReq { payload }, next))
    }
}

impl ServerPacket for PingReq {
    open spec fn spec_id() -> u8 {
        0x01
    }

    fn id() -> (id: u8) {
        0x01
    }
}

/// Opens the login of the player `name`.
#[derive(Debug)]
pub struct LoginStart {
    pub name: String,
}

/// What a `LoginStart` holds.
pub struct LoginStartModel {
    pub name: Seq<char>,
}

impl Prot for LoginStart {
    type Model = LoginStartModel;

    open spec fn model(&self) -> LoginStartModel {
        LoginStartModel {
            name: self.name.model(),
        }
    }

    open spec fn valid(m: LoginStartModel) -> bool {
        &&& String::valid(m.name)
    }

    open spec fn encoding(m: LoginStartModel) -> Seq<u8> {
        String::encoding(m.name)
    }
}

impl SizedProt for LoginStart {
    fn is_valid(&self) -> (ok: bool) {
        self.name.is_valid()
    }

    fn prot_size(&self) -> (n: usize) {
        self.name.prot_size()
    }
}

impl ReadProt for LoginStart {
    open spec fn decoding(s: Seq<u8>, pos: int) -> Result<(LoginStartModel, int), CodecError> {
        match String::decoding(s, pos) {
            Err(e) => Err(e),
            Ok((name, next)) => Ok((LoginStartModel { name }, next)),
        }
    }

    proof fn lemma_decoding_sound(s: Seq<u8>, pos: int) {
        String::lemma_decoding_sound(s, pos);
    }

    proof fn lemma_round_trip(m: LoginStartModel, pre: Seq<u8>, rest: Seq<u8>) {
        String::lemma_round_trip(m.name, pre, rest);
    }

    fn read(src: &[u8], pos: usize) -> (r: Result<(LoginStart, usize), CodecError>) {
        proof {
            String::lemma_decoding_sound(src@, pos as int);
        }
        let (name, next) = match String::read(src, pos) {
            Ok(found) => found,
            Err(e) => {
                return Err(e);
            },
        };
        Ok((LoginStart { name }, next))
    }
}

impl ServerPacket for LoginStart {
    open spec fn spec_id() -> u8 {
        0x00
    }

    fn id() -> (id: u8) {
        0x00
    }
}

/// The shared secret and the verify token, each encrypted with the
/// server's public key.
#[derive(Debug)]
pub struct EncryptionResponse {
    pub shared_secret: SizedVec<u8>,
    pub verify_token: SizedVec<u8>,
}

/// What a `EncryptionResponse` holds.
pub struct EncryptionResponseModel {
    pub shared_secret: Seq<u8>,
    pub verify_token: Seq<u8>,
}

impl Prot for EncryptionResponse {
    type Model = EncryptionResponseModel;

    open spec fn model(&self) -> EncryptionResponseModel {
        EncryptionResponseModel {
            shared_secret: self.shared_secret.model(),
            verify_token: self.verify_token.model(),
        }
    }

    open spec fn valid(m: EncryptionResponseModel) -> bool {
        &&& SizedVec::<u8>::valid(m.shared_secret)
        &&& SizedVec::<u8>::valid(m.verify_token)
    }

    open spec fn encoding(m: EncryptionResponseModel) -> Seq<u8> {
        SizedVec::<u8>::encoding(m.shared_secret)
            + SizedVec::<u8>::encoding(m.verify_token)
    }
}

impl SizedProt for EncryptionResponse {
    fn is_valid(&self) -> (ok: bool) {
        self.shared_secret.is_valid()
            && self.verify_token.is_valid()
    }

    fn prot_size(&self) -> (n: usize) {
        self.shared_secret.prot_size()
            + self.verify_token.prot_size()
    }
}

impl ReadProt for EncryptionResponse {
    open spec fn decoding(s: Seq<u8>, pos: int) -> Result<(EncryptionResponseModel, int), CodecError> {
        match SizedVec::<u8>::decoding(s, pos) {
            Err(e) => Err(e),
            Ok((shared_secret, p1)) => {
                match SizedVec::<u8>::decoding(s, p1) {
                    Err(e) => Err(e),
                    Ok((verify_token, next)) => Ok((EncryptionResponseModel { shared_secret, verify_token }, next)),
                }
            },
        }
    }

    proof fn lemma_decoding_sound(s: Seq<u8>, pos: int) {
        SizedVec::<u8>::lemma_decoding_sound(s, pos);
        match SizedVec::<u8>::decoding(s, pos) {
            Ok((shared_secret, p1)) => {
                SizedVec::<u8>::lemma_decoding_sound(s, p1);
            },
            Err(_) => {},
        }
    }

    proof fn lemma_round_trip(m: EncryptionResponseModel, pre: Seq<u8>, rest: Seq<u8>) {
        let e0 = SizedVec::<u8>::encoding(m.shared_secret);
        let e1 = SizedVec::<u8>::encoding(m.verify_token);
        let p0 = pre;
        let p1 = p0 + e0;
        let r1 = rest;
        let r0 = e1 + r1;
        lemma_concat_assoc(pre, e0, e1);
        lemma_concat_assoc(p1, e1, r1);
        SizedVec::<u8>::lemma_round_trip(m.shared_secret, p0, r0);
        SizedVec::<u8>::lemma_round_trip(m.verify_token, p1, r1);
    }

    fn read(src: &[u8], pos: usize) -> (r: Result<(EncryptionResponse, usize), CodecError>) {
        proof {
            SizedVec::<u8>::lemma_decoding_sound(src@, pos as int);
        }
        let (shared_secret, p1) = match SizedVec::<u8>::read(src, pos) {
            Ok(found) => found,
            Err(e) => {
                return Err(e);
            },
        };
        proof {
            SizedVec::<u8>::lemma_decoding_sound(src@, p1 as int);
        }
        let (verify_token, next) = match SizedVec::<u8>::read(src, p1) {
            Ok(found) => found,
            Err(e) => {
                return Err(e);
            },
        };
        Ok((EncryptionResponse { shared_secret, verify_token }, next))
    }
}

impl ServerPacket for EncryptionResponse {
    open spec fn spec_id() -> u8 {
        0x01
    }

    fn id() -> (id: u8) {
        0x01
    }
}

/// Acknowledges that the login has succeeded.
#[derive(Clone, Copy, Debug, PartialEq, Eq, Structural)]
pub struct LoginAck {}

impl Prot for LoginAck {
    type Model = LoginAck;

    open spec fn model(&self) -> LoginAck {
        *self
    }

    open spec fn valid(m: LoginAck) -> bool {
        true
    }

    open spec fn encoding(m: LoginAck) -> Seq<u8> {
        Seq::empty()
    }
}

impl SizedProt for LoginAck {
    fn is_valid(&self) -> (ok: bool) {
        true
    }

    fn prot_size(&self) -> (n: usize) {
        0
    }
}

impl ReadProt for LoginAck {
    open spec fn decoding(s: Seq<u8>, pos: int) -> Result<(LoginAck, int), CodecError> {
        Ok((LoginAck {  }, pos))
    }

    proof fn lemma_decoding_sound(s: Seq<u8>, pos: int) {
    }

    proof fn lemma_round_trip(m: LoginAck, pre: Seq<u8>, rest: Seq<u8>) {
    }

    fn read(src: &[u8], pos: usize) -> (r: Result<(LoginAck, usize), CodecError>) {
        Ok((LoginAck {  }, pos))
    }
}

impl ServerPacket for LoginAck {
    open spec fn spec_id() -> u8 {
        0x03
    }

    fn id() -> (id: u8) {
        0x03
    }
}

/// The settings of the client.
#[derive(Debug)]
pub struct ClientInfo {
    pub locale: String,
    pub view_distance: u8,
    pub chat_mode: VarInt,
    pub chat_colors: bool,
    pub displayed_skin_parts: u8,
    pub main_hand: VarInt,
    pub enable_text_filtering: bool,
    pub allow_server_listings: bool,
}

/// What a `ClientInfo` holds.
pub struct ClientInfoModel {
    pub locale: Seq<char>,
    pub view_distance: u8,
    pub chat_mode: VarInt,
    pub chat_colors: bool,
    pub displayed_skin_parts: u8,
    pub main_hand: VarInt,
    pub enable_text_filtering: bool,
    pub allow_server_listings: bool,
}

impl Prot for ClientInfo {
    type Model = ClientInfoModel;

    open spec fn model(&self) -> ClientInfoModel {
        ClientInfoModel {
            locale: self.locale.model(),
            view_distance: self.view_distance.model(),
            chat_mode: self.chat_mode.model(),
            chat_colors: self.chat_colors.model(),
            displayed_skin_parts: self.displayed_skin_parts.model(),
            main_hand: self.main_hand.model(),
            enable_text_filtering: self.enable_text_filtering.model(),
            allow_server_listings: self.allow_server_listings.model(),
        }
    }

    open spec fn valid(m: ClientInfoModel) -> bool {
        &&& String::valid(m.locale)
        &&& u8::valid(m.view_distance)
        &&& VarInt::valid(m.chat_mode)
        &&& bool::valid(m.chat_colors)
        &&& u8::valid(m.displayed_skin_parts)
        &&& VarInt::valid(m.main_hand)
        &&& bool::valid(m.enable_text_filtering)
        &&& bool::valid(m.allow_server_listings)
    }

    open spec fn encoding(m: ClientInfoModel) -> Seq<u8> {
        String::encoding(m.locale)
            + u8::encoding(m.view_distance)
            + VarInt::encoding(m.chat_mode)
            + bool::encoding(m.chat_colors)
            + u8::encoding(m.displayed_skin_parts)
            + VarInt::encoding(m.main_hand)
            + bool::encoding(m.enable_text_filtering)
            + bool::encoding(m.allow_server_listings)
    }
}

impl SizedProt for ClientInfo {
    fn is_valid(&self) -> (ok: bool) {
        self.locale.is_valid()
            && self.view_distance.is_valid()
            && self.chat_mode.is_valid()
            && self.chat_colors.is_valid()
            && self.displayed_skin_parts.is_valid()
            && self.main_hand.is_valid()
            && self.enable_text_filtering.is_valid()
            && self.allow_server_listings.is_valid()
    }

    fn prot_size(&self) -> (n: usize) {
        self.locale.prot_size()
            + self.view_distance.prot_size()
            + self.chat_mode.prot_size()
            + self.chat_colors.prot_size()
            + self.displayed_skin_parts.prot_size()
            + self.main_hand.prot_size()
            + self.enable_text_filtering.prot_size()
            + self.allow_server_listings.prot_size()
    }
}

impl ReadProt for ClientInfo {
    open spec fn decoding(s: Seq<u8>, pos: int) -> Result<(ClientInfoModel, int), CodecError> {
        match String::decoding(s, pos) {
            Err(e) => Err(e),
            Ok((locale, p1)) => {
                match u8::decoding(s, p1) {
                    Err(e) => Err(e),
                    Ok((view_distance, p2)) => {
                        match VarInt::decoding(s, p2) {
                            Err(e) => Err(e),
                            Ok((chat_mode, p3)) => {
                                match bool::decoding(s, p3) {
                                    Err(e) => Err(e),
                                    Ok((chat_colors, p4)) => {
                                        match u8::decoding(s, p4) {
                                            Err(e) => Err(e),
                                            Ok((displayed_skin_parts, p5)) => {
                                                match VarInt::decoding(s, p5) {
                                                    Err(e) => Err(e),
                                                    Ok((main_hand, p6)) => {
                                                        match bool::decoding(s, p6) {
                                                            Err(e) => Err(e),
                                                            Ok((enable_text_filtering, p7)) => {
                                                                match bool::decoding(s, p7) {
                                                                    Err(e) => Err(e),
                                                                    Ok((allow_server_listings, next)) => Ok((ClientInfoModel { locale, view_distance, chat_mode, chat_colors, displayed_skin_parts, main_hand, enable_text_filtering, allow_server_listings }, next)),
                                                                }
                                                            },
                                                        }
                                                    },
                                                }
                                            },
                                        }
                                    },
                                }
                            },
                        }
                    },
                }
            },
        }
    }

    proof fn lemma_decoding_sound(s: Seq<u8>, pos: int) {
        String::lemma_decoding_sound(s, pos);
        match String::decoding(s, pos) {
            Ok((locale, p1)) => {
                u8::lemma_decoding_sound(s, p1);
                match u8::decoding(s, p1) {
                    Ok((view_distance, p2)) => {
                        VarInt::lemma_decoding_sound(s, p2);
                        match VarInt::decoding(s, p2) {
                            Ok((chat_mode, p3)) => {
                                bool::lemma_decoding_sound(s, p3);
                                match bool::decoding(s, p3) {
                                    Ok((chat_colors, p4)) => {
                                        u8::lemma_decoding_sound(s, p4);
                                        match u8::decoding(s, p4) {
                                            Ok((displayed_skin_parts, p5)) => {
                                                VarInt::lemma_decoding_sound(s, p5);
                                                match VarInt::decoding(s, p5) {
                                                    Ok((main_hand, p6)) => {
                                                        bool::lemma_decoding_sound(s, p6);
                                                        match bool::decoding(s, p6) {
                                                            Ok((enable_text_filtering, p7)) => {
                                                                bool::lemma_decoding_sound(s, p7);
                                                            },
                                                            Err(_) => {},
                                                        }
                                                    },
                                                    Err(_) => {},
                                                }
                                            },
                                            Err(_) => {},
                                        }
                                    },
                                    Err(_) => {},
                                }
                            },
                            Err(_) => {},
                        }
                    },
                    Err(_) => {},
                }
            },
            Err(_) => {},
        }
    }

    proof fn lemma_round_trip(m: ClientInfoModel, pre: Seq<u8>, rest: Seq<u8>) {
        let e0 = String::encoding(m.locale);
        let e1 = u8::encoding(m.view_distance);
        let e2 = VarInt::encoding(m.chat_mode);
        let e3 = bool::encoding(m.chat_colors);
        let e4 = u8::encoding(m.displayed_skin_parts);
        let e5 = VarInt::encoding(m.main_hand);
        let e6 = bool::encoding(m.enable_text_filtering);
        let e7 = bool::encoding(m.allow_server_listings);
        let p0 = pre;
        let p1 = p0 + e0;
        let p2 = p1 + e1;
        let p3 = p2 + e2;
        let p4 = p3 + e3;
        let p5 = p4 + e4;
        let p6 = p5 + e5;
        let p7 = p6 + e6;
        let r7 = rest;
        let r6 = e7 + r7;
        let r5 = e6 + r6;
        let r4 = e5 + r5;
        let r3 = e4 + r4;
        let r2 = e3 + r3;
        let r1 = e2 + r2;
        let r0 = e1 + r1;
        lemma_concat_assoc(pre, e0, e1);
        lemma_concat_assoc(pre, e0 + e1, e2);
        lemma_concat_assoc(pre, e0 + e1 + e2, e3);
        lemma_concat_assoc(pre, e0 + e1 + e2 + e3, e4);
        lemma_concat_assoc(pre, e0 + e1 + e2 + e3 + e4, e5);
        lemma_concat_assoc(pre, e0 + e1 + e2 + e3 + e4 + e5, e6);
        lemma_concat_assoc(pre, e0 + e1 + e2 + e3 + e4 + e5 + e6, e7);
        lemma_concat_assoc(p7, e7, r7);
        lemma_concat_assoc(p6, e6, r6);
        lemma_concat_assoc(p5, e5, r5);
        lemma_concat_assoc(p4, e4, r4);
        lemma_concat_assoc(p3, e3, r3);
        lemma_concat_assoc(p2, e2, r2);
        lemma_concat_assoc(p1, e1, r1);
        String::lemma_round_trip(m.locale, p0, r0);
        u8::lemma_round_trip(m.view_distance, p1, r1);
        VarInt::lemma_round_trip(m.chat_mode, p2, r2);
        bool::lemma_round_trip(m.chat_colors, p3, r3);
        u8::lemma_round_trip(m.displayed_skin_parts, p4, r4);
        VarInt::lemma_round_trip(m.main_hand, p5, r5);
        bool::lemma_round_trip(m.enable_text_filtering, p6, r6);
        bool::lemma_round_trip(m.allow_server_listings, p7, r7);
    }

    fn read(src: &[u8], pos: usize) -> (r: Result<(ClientInfo, usize), CodecError>) {
        proof {
            String::lemma_decoding_sound(src@, pos as int);
        }
        let (locale, p1) = match String::read(src, pos) {
            Ok(found) => found,
            Err(e) => {
                return Err(e);
            },
        };
        proof {
            u8::lemma_decoding_sound(src@, p1 as int);
        }
        let (view_distance, p2) = match u8::read(src, p1) {
            Ok(found) => found,
            Err(e) => {
                return Err(e);
            },
        };
        proof {
            VarInt::lemma_decoding_sound(src@, p2 as int);
        }
        let (chat_mode, p3) = match VarInt::read(src, p2) {
            Ok(found) => found,
            Err(e) => {
                return Err(e);
            },
        };
        proof {
            bool::lemma_decoding_sound(src@, p3 as int);
        }
        let (chat_colors, p4) = match bool::read(src, p3) {
            Ok(found) => found,
            Err(e) => {
                return Err(e);
            },
        };
        proof {
            u8::lemma_decoding_sound(src@, p4 as int);
        }
        let (displayed_skin_parts, p5) = match u8::read(src, p4) {
            Ok(found) => found,
            Err(e) => {
                return Err(e);
            },
        };
        proof {
            VarInt::lemma_decoding_sound(src@, p5 as int);
        }
        let (main_hand, p6) = match VarInt::read(src, p5) {
            Ok(found) => found,
            Err(e) => {
                return Err(e);
            },
        };
        proof {
            bool::lemma_decoding_sound(src@, p6 as int);
        }
        let (enable_text_filtering, p7) = match bool::read(src, p6) {
            Ok(found) => found,
            Err(e) => {
                return Err(e);
            },
        };
        proof {
            bool::lemma_decoding_sound(src@, p7 as int);
        }
        let (allow_server_listings, next) = match bool::read(src, p7) {
            Ok(found) => found,
            Err(e) => {
                return Err(e);
            },
        };
        Ok((ClientInfo { locale, view_distance, chat_mode, chat_colors, displayed_skin_parts, main_hand, enable_text_filtering, allow_server_listings }, next))
    }
}

impl ServerPacket for ClientInfo {
    open spec fn spec_id() -> u8 {
        0x00
    }

    fn id() -> (id: u8) {
        0x00
    }
}

/// Acknowledges the end of the configuration.
#[derive(Clone, Copy, Debug, PartialEq, Eq, Structural)]
pub struct ConfigurationFinish {}

impl Prot for ConfigurationFinish {
    type Model = ConfigurationFinish;

    open spec fn model(&self) -> ConfigurationFinish {
        *self
    }

    open spec fn valid(m: ConfigurationFinish) -> bool {
        true
    }

    open spec fn encoding(m: ConfigurationFinish) -> Seq<u8> {
        Seq::empty()
    }
}

impl SizedProt for ConfigurationFinish {
    fn is_valid(&self) -> (ok: bool) {
        true
    }

    fn prot_size(&self) -> (n: usize) {
        0
    }
}

impl ReadProt for ConfigurationFinish {
    open spec fn decoding(s: Seq<u8>, pos: int) -> Result<(ConfigurationFinish, int), CodecError> {
        Ok((ConfigurationFinish {  }, pos))
    }

    proof fn lemma_decoding_sound(s: Seq<u8>, pos: int) {
    }

    proof fn lemma_round_trip(m: ConfigurationFinish, pre: Seq<u8>, rest: Seq<u8>) {
    }

    fn read(src: &[u8], pos: usize) -> (r: Result<(ConfigurationFinish, usize), CodecError>) {
        Ok((ConfigurationFinish {  }, pos))
    }
}

impl ServerPacket for ConfigurationFinish {
    open spec fn spec_id() -> u8 {
        0x02
    }

    fn id() -> (id: u8) {
        0x02
    }
}

/// Answers a keepalive during the configuration with its `id`.
#[derive(Clone, Copy, Debug, PartialEq, Eq, Structural)]
pub struct ConfigurationKeepAlive {
    pub id: i64,
}

impl Prot for ConfigurationKeepAlive {
    type Model = ConfigurationKeepAlive;

    open spec fn model(&self) -> ConfigurationKeepAlive {
        *self
    }

    open spec fn valid(m: ConfigurationKeepAlive) -> bool {
        &&& i64::valid(m.id)
    }

    open spec fn encoding(m: ConfigurationKeepAlive) -> Seq<u8> {
        i64::encoding(m.id)
    }
}

impl SizedProt for ConfigurationKeepAlive {
    fn is_valid(&self) -> (ok: bool) {
        self.id.is_valid()
    }

    fn prot_size(&self) -> (n: usize) {
        self.id.prot_size()
    }
}

impl ReadProt for ConfigurationKeepAlive {
    open spec fn decoding(s: Seq<u8>, pos: int) -> Result<(ConfigurationKeepAlive, int), CodecError> {
        match i64::decoding(s, pos) {
            Err(e) => Err(e),
            Ok((id, next)) => Ok((ConfigurationKeepAlive { id }, next)),
        }
    }

    proof fn lemma_decoding_sound(s: Seq<u8>, pos: int) {
        i64::lemma_decoding_sound(s, pos);
    }

    proof fn lemma_round_trip(m: ConfigurationKeepAlive, pre: Seq<u8>, rest: Seq<u8>) {
        i64::lemma_round_trip(m.id, pre, rest);
    }

    fn read(src: &[u8], pos: usize) -> (r: Result<(ConfigurationKeepAlive, usize), CodecError>) {
        proof {
            i64::lemma_decoding_sound(src@, pos as int);
        }
        let (id, next) = match i64::read(src, pos) {
            Ok(found) => found,
            Err(e) => {
                return Err(e);
            },
        };
        Ok((ConfigurationKeepAlive { id }, next))
    }
}

impl ServerPacket for ConfigurationKeepAlive {
    open spec fn spec_id() -> u8 {
        0x03
    }

    fn id() -> (id: u8) {
        0x03
    }
}

/// Answers a keepalive during play with its `id`.
#[derive(Clone, Copy, Debug, PartialEq, Eq, Structural)]
pub struct PlayKeepAlive {
    pub id: i64,
}

impl Prot for PlayKeepAlive {
    type Model = PlayKeepAlive;

    open spec fn model(&self) -> PlayKeepAlive {
        *self
    }

    open spec fn valid(m: PlayKeepAlive) -> bool {
        &&& i64::valid(m.id)
    }

    open spec fn encoding(m: PlayKeepAlive) -> Seq<u8> {
        i64::encoding(m.id)
    }
}

impl SizedProt for PlayKeepAlive {
    fn is_valid(&self) -> (ok: bool) {
        self.id.is_valid()
    }

    fn prot_size(&self) -> (n: usize) {
        self.id.prot_size()
    }
}

impl ReadProt for PlayKeepAlive {
    open spec fn decoding(s: Seq<u8>, pos: int) -> Result<(PlayKeepAlive, int), CodecError> {
        match i64::decoding(s, pos) {
            Err(e) => Err(e),
            Ok((id, next)) => Ok((PlayKeepAlive { id }, next)),
        }
    }

    proof fn lemma_decoding_sound(s: Seq<u8>, pos: int) {
        i64::lemma_decoding_sound(s, pos);
    }

    proof fn lemma_round_trip(m: PlayKeepAlive, pre: Seq<u8>, rest: Seq<u8>) {
        i64::lemma_round_trip(m.id, pre, rest);
    }

    fn read(src: &[u8], pos: usize) -> (r: Result<(PlayKeepAlive, usize), CodecError>) {
        proof {
            i64::lemma_decoding_sound(src@, pos as int);
        }
        let (id, next) = match i64::read(src, pos) {
            Ok(found) => found,
            Err(e) => {
                return Err(e);
            },
        };
        Ok((PlayKeepAlive { id }, next))
    }
}

impl ServerPacket for PlayKeepAlive {
    open spec fn spec_id() -> u8 {
        0x14
    }

    fn id() -> (id: u8) {
        0x14
    }
}

/// The chat session of the player and the key that signs it.
#[derive(Debug)]
pub struct PlayerSession {
    pub session_id: Uuid,
    pub key_expires_at: i64,
    pub key: SizedVec<u8>,
    pub key_signature: SizedVec<u8>,
}

/// What a `PlayerSession` holds.
pub struct PlayerSessionModel {
    pub session_id: Uuid,
    pub key_expires_at: i64,
    pub key: Seq<u8>,
    pub key_signature: Seq<u8>,
}

impl Prot for PlayerSession {
    type Model = PlayerSessionModel;

    open spec fn model(&self) -> PlayerSessionModel {
        PlayerSessionModel {
            session_id: self.session_id.model(),
            key_expires_at: self.key_expires_at.model(),
            key: self.key.model(),
            key_signature: self.key_signature.model(),
        }
    }

    open spec fn valid(m: PlayerSessionModel) -> bool {
        &&& Uuid::valid(m.session_id)
        &&& i64::valid(m.key_expires_at)
        &&& SizedVec::<u8>::valid(m.key)
        &&& SizedVec::<u8>::valid(m.key_signature)
    }

    open spec fn encoding(m: PlayerSessionModel) -> Seq<u8> {
        Uuid::encoding(m.session_id)
            + i64::encoding(m.key_expires_at)
            + SizedVec::<u8>::encoding(m.key)
            + SizedVec::<u8>::encoding(m.key_signature)
    }
}

impl SizedProt for PlayerSession {
    fn is_valid(&self) -> (ok: bool) {
        self.session_id.is_valid()
            && self.key_expires_at.is_valid()
            && self.key.is_valid()
            && self.key_signature.is_valid()
    }

    fn prot_size(&self) -> (n: usize) {
        self.session_id.prot_size()
            + self.key_expires_at.prot_size()
            + self.key.prot_size()
            + self.key_signature.prot_size()
    }
}

impl ReadProt for PlayerSession {
    open spec fn decoding(s: Seq<u8>, pos: int) -> Result<(PlayerSessionModel, int), CodecError> {
        match Uuid::decoding(s, pos) {
            Err(e) => Err(e),
            Ok((session_id, p1)) => {
                match i64::decoding(s, p1) {
                    Err(e) => Err(e),
                    Ok((key_expires_at, p2)) => {
                        match SizedVec::<u8>::decoding(s, p2) {
                            Err(e) => Err(e),
                            Ok((key, p3)) => {
                                match SizedVec::<u8>::decoding(s, p3) {
                                    Err(e) => Err(e),
                                    Ok((key_signature, next)) => Ok((PlayerSessionModel { session_id, key_expires_at, key, key_signature }, next)),
                                }
                            },
                        }
                    },
                }
            },
        }
    }

    proof fn lemma_decoding_sound(s: Seq<u8>, pos: int) {
        Uuid::lemma_decoding_sound(s, pos);
        match Uuid::decoding(s, pos) {
            Ok((session_id, p1)) => {
                i64::lemma_decoding_sound(s, p1);
                match i64::decoding(s, p1) {
                    Ok((key_expires_at, p2)) => {
                        SizedVec::<u8>::lemma_decoding_sound(s, p2);
                        match SizedVec::<u8>::decoding(s, p2) {
                            Ok((key, p3)) => {
                                SizedVec::<u8>::lemma_decoding_sound(s, p3);
                            },
                            Err(_) => {},
                        }
                    },
                    Err(_) => {},
                }
            },
            Err(_) => {},
        }
    }

    proof fn lemma_round_trip(m: PlayerSessionModel, pre: Seq<u8>, rest: Seq<u8>) {
        let e0 = Uuid::encoding(m.session_id);
        let e1 = i64::encoding(m.key_expires_at);
        let e2 = SizedVec::<u8>::encoding(m.key);
        let e3 = SizedVec::<u8>::encoding(m.key_signature);
        let p0 = pre;
        let p1 = p0 + e0;
        let p2 = p1 + e1;
        let p3 = p2 + e2;
        let r3 = rest;
        let r2 = e3 + r3;
        let r1 = e2 + r2;
        let r0 = e1 + r1;
        lemma_concat_assoc(pre, e0, e1);
        lemma_concat_assoc(pre, e0 + e1, e2);
        lemma_concat_assoc(pre, e0 + e1 + e2, e3);
        lemma_concat_assoc(p3, e3, r3);
        lemma_concat_assoc(p2, e2, r2);
        lemma_concat_assoc(p1, e1, r1);
        Uuid::lemma_round_trip(m.session_id, p0, r0);
        i64::lemma_round_trip(m.key_expires_at, p1, r1);
        SizedVec::<u8>::lemma_round_trip(m.key, p2, r2);
        SizedVec::<u8>::lemma_round_trip(m.key_signature, p3, r3);
    }

    fn read(src: &[u8], pos: usize) -> (r: Result<(PlayerSession, usize), CodecError>) {
        proof {
            Uuid::lemma_decoding_sound(src@, pos as int);
        }
        let (session_id, p1) = match Uuid::read(src, pos) {
            Ok(found) => found,
            Err(e) => {
                return Err(e);
            },
        };
        proof {
            i64::lemma_decoding_sound(src@, p1 as int);
        }
        let (key_expires_at, p2) = match i64::read(src, p1) {
            Ok(found) => found,
            Err(e) => {
                return Err(e);
            },
        };
        proof {
            SizedVec::<u8>::lemma_decoding_sound(src@, p2 as int);
        }
        let (key, p3) = match SizedVec::<u8>::read(src, p2) {
            Ok(found) => found,
            Err(e) => {
                return Err(e);
            },
        };
        proof {
            SizedVec::<u8>::lemma_decoding_sound(src@, p3 as int);
        }
        let (key_signature, next) = match SizedVec::<u8>::read(src, p3) {
            Ok(found) => found,
            Err(e) => {
                return Err(e);
            },
        };
        Ok((PlayerSession { session_id, key_expires_at, key, key_signature }, next))
    }
}

impl ServerPacket for PlayerSession {
    open spec fn spec_id() -> u8 {
        0x06
    }

    fn id() -> (id: u8) {
        0x06
    }
}

/// Where the player now stands.
#[derive(Clone, Copy, Debug, PartialEq, Eq, Structural)]
pub struct SetPlayerPosition {
    pub x: Double,
    pub y: Double,
    pub z: Double,
    pub on_ground: bool,
}

impl Prot for SetPlayerPosition {
    type Model = SetPlayerPosition;

    open spec fn model(&self) -> SetPlayerPosition {
        *self
    }

    open spec fn valid(m: SetPlayerPosition) -> bool {
        &&& Double::valid(m.x)
        &&& Double::valid(m.y)
        &&& Double::valid(m.z)
        &&& bool::valid(m.on_ground)
    }

    open spec fn encoding(m: SetPlayerPosition) -> Seq<u8> {
        Double::encoding(m.x)
            + Double::encoding(m.y)
            + Double::encoding(m.z)
            + bool::encoding(m.on_ground)
    }
}

impl SizedProt for SetPlayerPosition {
    fn is_valid(&self) -> (ok: bool) {
        self.x.is_valid()
            && self.y.is_valid()
            && self.z.is_valid()
            && self.on_ground.is_valid()
    }

    fn prot_size(&self) -> (n: usize) {
        self.x.prot_size()
            + self.y.prot_size()
            + self.z.prot_size()
            + self.on_ground.prot_size()
    }
}

impl ReadProt for SetPlayerPosition {
    open spec fn decoding(s: Seq<u8>, pos: int) -> Result<(SetPlayerPosition, int), CodecError> {
        match Double::decoding(s, pos) {
            Err(e) => Err(e),
            Ok((x, p1)) => {
                match Double::decoding(s, p1) {
                    Err(e) => Err(e),
                    Ok((y, p2)) => {
                        match Double::decoding(s, p2) {
                            Err(e) => Err(e),
                            Ok((z, p3)) => {
                                match bool::decoding(s, p3) {
                                    Err(e) => Err(e),
                                    Ok((on_ground, next)) => Ok((SetPlayerPosition { x, y, z, on_ground }, next)),
                                }
                            },
                        }
                    },
                }
            },
        }
    }

    proof fn lemma_decoding_sound(s: Seq<u8>, pos: int) {
        Double::lemma_decoding_sound(s, pos);
        match Double::decoding(s, pos) {
            Ok((x, p1)) => {
                Double::lemma_decoding_sound(s, p1);
                match Double::decoding(s, p1) {
                    Ok((y, p2)) => {
                        Double::lemma_decoding_sound(s, p2);
                        match Double::decoding(s, p2) {
                            Ok((z, p3)) => {
                                bool::lemma_decoding_sound(s, p3);
                            },
                            Err(_) => {},
                        }
                    },
                    Err(_) => {},
                }
            },
            Err(_) => {},
        }
    }

    proof fn lemma_round_trip(m: SetPlayerPosition, pre: Seq<u8>, rest: Seq<u8>) {
        let e0 = Double::encoding(m.x);
        let e1 = Double::encoding(m.y);
        let e2 = Double::encoding(m.z);
        let e3 = bool::encoding(m.on_ground);
        let p0 = pre;
        let p1 = p0 + e0;
        let p2 = p1 + e1;
        let p3 = p2 + e2;
        let r3 = rest;
        let r2 = e3 + r3;
        let r1 = e2 + r2;
        let r0 = e1 + r1;
        lemma_concat_assoc(pre, e0, e1);
        lemma_concat_assoc(pre, e0 + e1, e2);
        lemma_concat_assoc(pre, e0 + e1 + e2, e3);
        lemma_concat_assoc(p3, e3, r3);
        lemma_concat_assoc(p2, e2, r2);
        lemma_concat_assoc(p1, e1, r1);
        Double::lemma_round_trip(m.x, p0, r0);
        Double::lemma_round_trip(m.y, p1, r1);
        Double::lemma_round_trip(m.z, p2, r2);
        bool::lemma_round_trip(m.on_ground, p3, r3);
    }

    fn read(src: &[u8], pos: usize) -> (r: Result<(SetPlayerPosition, usize), CodecError>) {
        proof {
            Double::lemma_decoding_sound(src@, pos as int);
        }
        let (x, p1) = match Double::read(src, pos) {
            Ok(found) => found,
            Err(e) => {
                return Err(e);
            },
        };
        proof {
            Double::lemma_decoding_sound(src@, p1 as int);
        }
        let (y, p2) = match Double::read(src, p1) {
            Ok(found) => found,
            Err(e) => {
                return Err(e);
            },
        };
        proof {
            Double::lemma_decoding_sound(src@, p2 as int);
        }
        let (z, p3) = match Double::read(src, p2) {
            Ok(found) => found,
            Err(e) => {
                return Err(e);
            },
        };
        proof {
            bool::lemma_decoding_sound(src@, p3 as int);
        }
        let (on_ground, next) = match bool::read(src, p3) {
            Ok(found) => found,
            Err(e) => {
                return Err(e);
            },
        };
        Ok((SetPlayerPosition { x, y, z, on_ground }, next))
    }
}

impl ServerPacket for SetPlayerPosition {
    open spec fn spec_id() -> u8 {
        0x16
    }

    fn id() -> (id: u8) {
        0x16
    }
}

/// Where the player now stands and looks.
#[derive(Clone, Copy, Debug, PartialEq, Eq, Structural)]
pub struct SetPlayerPositionAndRotation {
    pub x: Double,
    pub y: Double,
    pub z: Double,
    pub yaw: Float,
    pub pitch: Float,
    pub on_ground: bool,
}

impl Prot for SetPlayerPositionAndRotation {
    type Model = SetPlayerPositionAndRotation;

    open spec fn model(&self) -> SetPlayerPositionAndRotation {
        *self
    }

    open spec fn valid(m: SetPlayerPositionAndRotation) -> bool {
        &&& Double::valid(m.x)
        &&& Double::valid(m.y)
        &&& Double::valid(m.z)
        &&& Float::valid(m.yaw)
        &&& Float::valid(m.pitch)
        &&& bool::valid(m.on_ground)
    }

    open spec fn encoding(m: SetPlayerPositionAndRotation) -> Seq<u8> {
        Double::encoding(m.x)
            + Double::encoding(m.y)
            + Double::encoding(m.z)
            + Float::encoding(m.yaw)
            + Float::encoding(m.pitch)
            + bool::encoding(m.on_ground)
    }
}

impl SizedProt for SetPlayerPositionAndRotation {
    fn is_valid(&self) -> (ok: bool) {
        self.x.is_valid()
            && self.y.is_valid()
            && self.z.is_valid()
            && self.yaw.is_valid()
            && self.pitch.is_valid()
            && self.on_ground.is_valid()
    }

    fn prot_size(&self) -> (n: usize) {
        self.x.prot_size()
            + self.y.prot_size()
            + self.z.prot_size()
            + self.yaw.prot_size()
            + self.pitch.prot_size()
            + self.on_ground.prot_size()
    }
}

impl ReadProt for SetPlayerPositionAndRotation {
    open spec fn decoding(s: Seq<u8>, pos: int) -> Result<(SetPlayerPositionAndRotation, int), CodecError> {
        match Double::decoding(s, pos) {
            Err(e) => Err(e),
            Ok((x, p1)) => {
                match Double::decoding(s, p1) {
                    Err(e) => Err(e),
                    Ok((y, p2)) => {
                        match Double::decoding(s, p2) {
                            Err(e) => Err(e),
                            Ok((z, p3)) => {
                                match Float::decoding(s, p3) {
                                    Err(e) => Err(e),
                                    Ok((yaw, p4)) => {
                                        match Float::decoding(s, p4) {
                                            Err(e) => Err(e),
                                            Ok((pitch, p5)) => {
                                                match bool::decoding(s, p5) {
                                                    Err(e) => Err(e),
                                                    Ok((on_ground, next)) => Ok((SetPlayerPositionAndRotation { x, y, z, yaw, pitch, on_ground }, next)),
                                                }
                                            },
                                        }
                                    },
                                }
                            },
                        }
                    },
                }
            },
        }
    }

    proof fn lemma_decoding_sound(s: Seq<u8>, pos: int) {
        Double::lemma_decoding_sound(s, pos);
        match Double::decoding(s, pos) {
            Ok((x, p1)) => {
                Double::lemma_decoding_sound(s, p1);
                match Double::decoding(s, p1) {
                    Ok((y, p2)) => {
                        Double::lemma_decoding_sound(s, p2);
                        match Double::decoding(s, p2) {
                            Ok((z, p3)) => {
                                Float::lemma_decoding_sound(s, p3);
                                match Float::decoding(s, p3) {
                                    Ok((yaw, p4)) => {
                                        Float::lemma_decoding_sound(s, p4);
                                        match Float::decoding(s, p4) {
                                            Ok((pitch, p5)) => {
                                                bool::lemma_decoding_sound(s, p5);
                                            },
                                            Err(_) => {},
                                        }
                                    },
                                    Err(_) => {},
                                }
                            },
                            Err(_) => {},
                        }
                    },
                    Err(_) => {},
                }
            },
            Err(_) => {},
        }
    }

    proof fn lemma_round_trip(m: SetPlayerPositionAndRotation, pre: Seq<u8>, rest: Seq<u8>) {
        let e0 = Double::encoding(m.x);
        let e1 = Double::encoding(m.y);
        let e2 = Double::encoding(m.z);
        let e3 = Float::encoding(m.yaw);
        let e4 = Float::encoding(m.pitch);
        let e5 = bool::encoding(m.on_ground);
        let p0 = pre;
        let p1 = p0 + e0;
        let p2 = p1 + e1;
        let p3 = p2 + e2;
        let p4 = p3 + e3;
        let p5 = p4 + e4;
        let r5 = rest;
        let r4 = e5 + r5;
        let r3 = e4 + r4;
        let r2 = e3 + r3;
        let r1 = e2 + r2;
        let r0 = e1 + r1;
        lemma_concat_assoc(pre, e0, e1);
        lemma_concat_assoc(pre, e0 + e1, e2);
        lemma_concat_assoc(pre, e0 + e1 + e2, e3);
        lemma_concat_assoc(pre, e0 + e1 + e2 + e3, e4);
        lemma_concat_assoc(pre, e0 + e1 + e2 + e3 + e4, e5);
        lemma_concat_assoc(p5, e5, r5);
        lemma_concat_assoc(p4, e4, r4);
        lemma_concat_assoc(p3, e3, r3);
        lemma_concat_assoc(p2, e2, r2);
        lemma_concat_assoc(p1, e1, r1);
        Double::lemma_round_trip(m.x, p0, r0);
        Double::lemma_round_trip(m.y, p1, r1);
        Double::lemma_round_trip(m.z, p2, r2);
        Float::lemma_round_trip(m.yaw, p3, r3);
        Float::lemma_round_trip(m.pitch, p4, r4);
        bool::lemma_round_trip(m.on_ground, p5, r5);
    }

    fn read(src: &[u8], pos: usize) -> (r: Result<(SetPlayerPositionAndRotation, usize), CodecError>) {
        proof {
            Double::lemma_decoding_sound(src@, pos as int);
        }
        let (x, p1) = match Double::read(src, pos) {
            Ok(found) => found,
            Err(e) => {
                return Err(e);
            },
        };
        proof {
            Double::lemma_decoding_sound(src@, p1 as int);
        }
        let (y, p2) = match Double::read(src, p1) {
            Ok(found) => found,
            Err(e) => {
                return Err(e);
            },
        };
        proof {
            Double::lemma_decoding_sound(src@, p2 as int);
        }
        let (z, p3) = match Double::read(src, p2) {
            Ok(found) => found,
            Err(e) => {
                return Err(e);
            },
        };
        proof {
            Float::lemma_decoding_sound(src@, p3 as int);
        }
        let (yaw, p4) = match Float::read(src, p3) {
            Ok(found) => found,
            Err(e) => {
                return Err(e);
            },
        };
        proof {
            Float::lemma_decoding_sound(src@, p4 as int);
        }
        let (pitch, p5) = match Float::read(src, p4) {
            Ok(found) => found,
            Err(e) => {
                return Err(e);
            },
        };
        proof {
            bool::lemma_decoding_sound(src@, p5 as int);
        }
        let (on_ground, next) = match bool::read(src, p5) {
            Ok(found) => found,
            Err(e) => {
                return Err(e);
            },
        };
        Ok((SetPlayerPositionAndRotation { x, y, z, yaw, pitch, on_ground }, next))
    }
}

impl ServerPacket for SetPlayerPositionAndRotation {
    open spec fn spec_id() -> u8 {
        0x17
    }

    fn id() -> (id: u8) {
        0x17
    }
}

/// Where the player now looks.
#[derive(Clone, Copy, Debug, PartialEq, Eq, Structural)]
pub struct SetPlayerRotation {
    pub yaw: Float,
    pub pitch: Float,
    pub on_ground: bool,
}

impl Prot for SetPlayerRotation {
    type Model = SetPlayerRotation;

    open spec fn model(&self) -> SetPlayerRotation {
        *self
    }

    open spec fn valid(m: SetPlayerRotation) -> bool {
        &&& Float::valid(m.yaw)
        &&& Float::valid(m.pitch)
        &&& bool::valid(m.on_ground)
    }

    open spec fn encoding(m: SetPlayerRotation) -> Seq<u8> {
        Float::encoding(m.yaw)
            + Float::encoding(m.pitch)
            + bool::encoding(m.on_ground)
    }
}

impl SizedProt for SetPlayerRotation {
    fn is_valid(&self) -> (ok: bool) {
        self.yaw.is_valid()
            && self.pitch.is_valid()
            && self.on_ground.is_valid()
    }

    fn prot_size(&self) -> (n: usize) {
        self.yaw.prot_size()
            + self.pitch.prot_size()
            + self.on_ground.prot_size()
    }
}

impl ReadProt for SetPlayerRotation {
    open spec fn decoding(s: Seq<u8>, pos: int) -> Result<(SetPlayerRotation, int), CodecError> {
        match Float::decoding(s, pos) {
            Err(e) => Err(e),
            Ok((yaw, p1)) => {
                match Float::decoding(s, p1) {
                    Err(e) => Err(e),
                    Ok((pitch, p2)) => {
                        match bool::decoding(s, p2) {
                            Err(e) => Err(e),
                            Ok((on_ground, next)) => Ok((SetPlayerRotation { yaw, pitch, on_ground }, next)),
                        }
                    },
                }
            },
        }
    }

    proof fn lemma_decoding_sound(s: Seq<u8>, pos: int) {
        Float::lemma_decoding_sound(s, pos);
        match Float::decoding(s, pos) {
            Ok((yaw, p1)) => {
                Float::lemma_decoding_sound(s, p1);
                match Float::decoding(s, p1) {
                    Ok((pitch, p2)) => {
                        bool::lemma_decoding_sound(s, p2);
                    },
                    Err(_) => {},
                }
            },
            Err(_) => {},
        }
    }

    proof fn lemma_round_trip(m: SetPlayerRotation, pre: Seq<u8>, rest: Seq<u8>) {
        let e0 = Float::encoding(m.yaw);
        let e1 = Float::encoding(m.pitch);
        let e2 = bool::encoding(m.on_ground);
        let p0 = pre;
        let p1 = p0 + e0;
        let p2 = p1 + e1;
        let r2 = rest;
        let r1 = e2 + r2;
        let r0 = e1 + r1;
        lemma_concat_assoc(pre, e0, e1);
        lemma_concat_assoc(pre, e0 + e1, e2);
        lemma_concat_assoc(p2, e2, r2);
        lemma_concat_assoc(p1, e1, r1);
        Float::lemma_round_trip(m.yaw, p0, r0);
        Float::lemma_round_trip(m.pitch, p1, r1);
        bool::lemma_round_trip(m.on_ground, p2, r2);
    }

    fn read(src: &[u8], pos: usize) -> (r: Result<(SetPlayerRotation, usize), CodecError>) {
        proof {
            Float::lemma_decoding_sound(src@, pos as int);
        }
        let (yaw, p1) = match Float::read(src, pos) {
            Ok(found) => found,
            Err(e) => {
                return Err(e);
            },
        };
        proof {
            Float::lemma_decoding_sound(src@, p1 as int);
        }
        let (pitch, p2) = match Float::read(src, p1) {
            Ok(found) => found,
            Err(e) => {
                return Err(e);
            },
        };
        proof {
            bool::lemma_decoding_sound(src@, p2 as int);
        }
        let (on_ground, next) = match bool::read(src, p2) {
            Ok(found) => found,
            Err(e) => {
                return Err(e);
            },
        };
        Ok((SetPlayerRotation { yaw, pitch, on_ground }, next))
    }
}

impl ServerPacket for SetPlayerRotation {
    open spec fn spec_id() -> u8 {
        0x18
    }

    fn id() -> (id: u8) {
        0x18
    }
}

/// Confirms the teleport that the server sent under `teleport_id`.
#[derive(Clone, Copy, Debug, PartialEq, Eq, Structural)]
pub struct ConfirmTeleportation {
    pub teleport_id: VarInt,
}

impl Prot for ConfirmTeleportation {
    type Model = ConfirmTeleportation;

    open spec fn model(&self) -> ConfirmTeleportation {
        *self
    }

    open spec fn valid(m: ConfirmTeleportation) -> bool {
        &&& VarInt::valid(m.teleport_id)
    }

    open spec fn encoding(m: ConfirmTeleportation) -> Seq<u8> {
        VarInt::encoding(m.teleport_id)
    }
}

impl SizedProt for ConfirmTeleportation {
    fn is_valid(&self) -> (ok: bool) {
        self.teleport_id.is_valid()
    }

    fn prot_size(&self) -> (n: usize) {
        self.teleport_id.prot_size()
    }
}

impl ReadProt for ConfirmTeleportation {
    open spec fn decoding(s: Seq<u8>, pos: int) -> Result<(ConfirmTeleportation, int), CodecError> {
        match VarInt::decoding(s, pos) {
            Err(e) => Err(e),
            Ok((teleport_id, next)) => Ok((ConfirmTeleportation { teleport_id }, next)),
        }
    }

    proof fn lemma_decoding_sound(s: Seq<u8>, pos: int) {
        VarInt::lemma_decoding_sound(s, pos);
    }

    proof fn lemma_round_trip(m: ConfirmTeleportation, pre: Seq<u8>, rest: Seq<u8>) {
        VarInt::lemma_round_trip(m.teleport_id, pre, rest);
    }

    fn read(src: &[u8], pos: usize) -> (r: Result<(ConfirmTeleportation, usize), CodecError>) {
        proof {
            VarInt::lemma_decoding_sound(src@, pos as int);
        }
        let (teleport_id, next) = match VarInt::read(src, pos) {
            Ok(found) => found,
            Err(e) => {
                return Err(e);
            },
        };
        Ok((ConfirmTeleportation { teleport_id }, next))
    }
}

impl ServerPacket for ConfirmTeleportation {
    open spec fn spec_id() -> u8 {
        0x00
    }

    fn id() -> (id: u8) {
        0x00
    }
}

/// Something the player does with the body: sneaking, sprinting, leaving a bed.
#[derive(Clone, Copy, Debug, PartialEq, Eq, Structural)]
pub struct PlayerCommand {
    pub entity: VarInt,
    pub action: VarInt,
    pub jump_boost: VarInt,
}

impl Prot for PlayerCommand {
    type Model = PlayerCommand;

    open spec fn model(&self) -> PlayerCommand {
        *self
    }

    open spec fn valid(m: PlayerCommand) -> bool {
        &&& VarInt::valid(m.entity)
        &&& VarInt::valid(m.action)
        &&& VarInt::valid(m.jump_boost)
    }

    open spec fn encoding(m: PlayerCommand) -> Seq<u8> {
        VarInt::encoding(m.entity)
            + VarInt::encoding(m.action)
            + VarInt::encoding(m.jump_boost)
    }
}

impl SizedProt for PlayerCommand {
    fn is_valid(&self) -> (ok: bool) {
        self.entity.is_valid()
            && self.action.is_valid()
            && self.jump_boost.is_valid()
    }

    fn prot_size(&self) -> (n: usize) {
        self.entity.prot_size()
            + self.action.prot_size()
            + self.jump_boost.prot_size()
    }
}

impl ReadProt for PlayerCommand {
    open spec fn decoding(s: Seq<u8>, pos: int) -> Result<(PlayerCommand, int), CodecError> {
        match VarInt::decoding(s, pos) {
            Err(e) => Err(e),
            Ok((entity, p1)) => {
                match VarInt::decoding(s, p1) {
                    Err(e) => Err(e),
                    Ok((action, p2)) => {
                        match VarInt::decoding(s, p2) {
                            Err(e) => Err(e),
                            Ok((jump_boost, next)) => Ok((PlayerCommand { entity, action, jump_boost }, next)),
                        }
                    },
                }
            },
        }
    }

    proof fn lemma_decoding_sound(s: Seq<u8>, pos: int) {
        VarInt::lemma_decoding_sound(s, pos);
        match VarInt::decoding(s, pos) {
            Ok((entity, p1)) => {
                VarInt::lemma_decoding_sound(s, p1);
                match VarInt::decoding(s, p1) {
                    Ok((action, p2)) => {
                        VarInt::lemma_decoding_sound(s, p2);
                    },
                    Err(_) => {},
                }
            },
            Err(_) => {},
        }
    }

    proof fn lemma_round_trip(m: PlayerCommand, pre: Seq<u8>, rest: Seq<u8>) {
        let e0 = VarInt::encoding(m.entity);
        let e1 = VarInt::encoding(m.action);
        let e2 = VarInt::encoding(m.jump_boost);
        let p0 = pre;
        let p1 = p0 + e0;
        let p2 = p1 + e1;
        let r2 = rest;
        let r1 = e2 + r2;
        let r0 = e1 + r1;
        lemma_concat_assoc(pre, e0, e1);
        lemma_concat_assoc(pre, e0 + e1, e2);
        lemma_concat_assoc(p2, e2, r2);
        lemma_concat_assoc(p1, e1, r1);
        VarInt::lemma_round_trip(m.entity, p0, r0);
        VarInt::lemma_round_trip(m.action, p1, r1);
        VarInt::lemma_round_trip(m.jump_boost, p2, r2);
    }

    fn read(src: &[u8], pos: usize) -> (r: Result<(PlayerCommand, usize), CodecError>) {
        proof {
            VarInt::lemma_decoding_sound(src@, pos as int);
        }
        let (entity, p1) = match VarInt::read(src, pos) {
            Ok(found) => found,
            Err(e) => {
                return Err(e);
            },
        };
        proof {
            VarInt::lemma_decoding_sound(src@, p1 as int);
        }
        let (action, p2) = match VarInt::read(src, p1) {
            Ok(found) => found,
            Err(e) => {
                return Err(e);
            },
        };
        proof {
            VarInt::lemma_decoding_sound(src@, p2 as int);
        }
        let (jump_boost, next) = match VarInt::read(src, p2) {
            Ok(found) => found,
            Err(e) => {
                return Err(e);
            },
        };
        Ok((PlayerCommand { entity, action, jump_boost }, next))
    }
}

impl ServerPacket for PlayerCommand {
    open spec fn spec_id() -> u8 {
        0x21
    }

    fn id() -> (id: u8) {
        0x21
    }
}

/// The packets that a client can send.
#[derive(Debug)]
pub enum ServerPackets {
    Handshake(Handshake),
    StatusReq(StatusReq),
    PingReq(PingReq),
    LoginStart(LoginStart),
    EncryptionResponse(EncryptionResponse),
    LoginAck(LoginAck),
    ClientInfo(ClientInfo),
    ConfigurationFinish(ConfigurationFinish),
    ConfigurationKeepAlive(ConfigurationKeepAlive),
    PlayKeepAlive(PlayKeepAlive),
    PlayerSession(PlayerSession),
    SetPlayerPosition(SetPlayerPosition),
    SetPlayerPositionAndRotation(SetPlayerPositionAndRotation),
    SetPlayerRotation(SetPlayerRotation),
    ConfirmTeleportation(ConfirmTeleportation),
    PlayerCommand(PlayerCommand),
}

/// What a packet of a client holds.
pub enum ServerPacketsModel {
    Handshake(HandshakeModel),
    StatusReq(StatusReq),
    PingReq(PingReq),
    LoginStart(LoginStartModel),
    EncryptionResponse(EncryptionResponseModel),
    LoginAck(LoginAck),
    ClientInfo(ClientInfoModel),
    ConfigurationFinish(ConfigurationFinish),
    ConfigurationKeepAlive(ConfigurationKeepAlive),
    PlayKeepAlive(PlayKeepAlive),
    PlayerSession(PlayerSessionModel),
    SetPlayerPosition(SetPlayerPosition),
    SetPlayerPositionAndRotation(SetPlayerPositionAndRotation),
    SetPlayerRotation(SetPlayerRotation),
    ConfirmTeleportation(ConfirmTeleportation),
    PlayerCommand(PlayerCommand),
}

/// The kinds of packets that a client can send.
#[derive(Clone, Copy, Debug, PartialEq, Eq, Structural)]
pub enum ServerPacketKind {
    Handshake,
    StatusReq,
    PingReq,
    LoginStart,
    EncryptionResponse,
    LoginAck,
    ClientInfo,
    ConfigurationFinish,
    ConfigurationKeepAlive,
    PlayKeepAlive,
    PlayerSession,
    SetPlayerPosition,
    SetPlayerPositionAndRotation,
    SetPlayerRotation,
    ConfirmTeleportation,
    PlayerCommand,
}

impl ServerPacketKind {
    /// The id under which this kind of packet travels.
    pub open spec fn spec_id(self) -> u8 {
        match self {
            ServerPacketKind::Handshake => Handshake::spec_id(),
            ServerPacketKind::StatusReq => StatusReq::spec_id(),
            ServerPacketKind::PingReq => PingReq::spec_id(),
            ServerPacketKind::LoginStart => LoginStart::spec_id(),
            ServerPacketKind::EncryptionResponse => EncryptionResponse::spec_id(),
            ServerPacketKind::LoginAck => LoginAck::spec_id(),
            ServerPacketKind::ClientInfo => ClientInfo::spec_id(),
            ServerPacketKind::ConfigurationFinish => ConfigurationFinish::spec_id(),
            ServerPacketKind::ConfigurationKeepAlive => ConfigurationKeepAlive::spec_id(),
            ServerPacketKind::PlayKeepAlive => PlayKeepAlive::spec_id(),
            ServerPacketKind::PlayerSession => PlayerSession::spec_id(),
            ServerPacketKind::SetPlayerPosition => SetPlayerPosition::spec_id(),
            ServerPacketKind::SetPlayerPositionAndRotation => SetPlayerPositionAndRotation::spec_id(),
            ServerPacketKind::SetPlayerRotation => SetPlayerRotation::spec_id(),
            ServerPacketKind::ConfirmTeleportation => ConfirmTeleportation::spec_id(),
            ServerPacketKind::PlayerCommand => PlayerCommand::spec_id(),
        }
    }

    /// The state of a connection in which this kind of packet is known.
    pub open spec fn spec_state(self) -> ConnectionState {
        match self {
            ServerPacketKind::Handshake => ConnectionState::Handshake,
            ServerPacketKind::StatusReq => ConnectionState::Status,
            ServerPacketKind::PingReq => ConnectionState::Status,
            ServerPacketKind::LoginStart => ConnectionState::Login,
            ServerPacketKind::EncryptionResponse => ConnectionState::Login,
            ServerPacketKind::LoginAck => ConnectionState::Login,
            ServerPacketKind::ClientInfo => ConnectionState::Configuration,
            ServerPacketKind::ConfigurationFinish => ConnectionState::Configuration,
            ServerPacketKind::ConfigurationKeepAlive => ConnectionState::Configuration,
            ServerPacketKind::PlayKeepAlive => ConnectionState::Play,
            ServerPacketKind::PlayerSession => ConnectionState::Play,
            ServerPacketKind::SetPlayerPosition => ConnectionState::Play,
            ServerPacketKind::SetPlayerPositionAndRotation => ConnectionState::Play,
            ServerPacketKind::SetPlayerRotation => ConnectionState::Play,
            ServerPacketKind::ConfirmTeleportation => ConnectionState::Play,
            ServerPacketKind::PlayerCommand => ConnectionState::Play,
        }
    }

    /// The id under which this kind of packet travels.
    pub fn id(self) -> (id: u8)
        ensures
            id == self.spec_id(),
    {
        match self {
            ServerPacketKind::Handshake => Handshake::id(),
            ServerPacketKind::StatusReq => StatusReq::id(),
            ServerPacketKind::PingReq => PingReq::id(),
            ServerPacketKind::LoginStart => LoginStart::id(),
            ServerPacketKind::EncryptionResponse => EncryptionResponse::id(),
            ServerPacketKind::LoginAck => LoginAck::id(),
            ServerPacketKind::ClientInfo => ClientInfo::id(),
            ServerPacketKind::ConfigurationFinish => ConfigurationFinish::id(),
            ServerPacketKind::ConfigurationKeepAlive => ConfigurationKeepAlive::id(),
            ServerPacketKind::PlayKeepAlive => PlayKeepAlive::id(),
            ServerPacketKind::PlayerSession => PlayerSession::id(),
            ServerPacketKind::SetPlayerPosition => SetPlayerPosition::id(),
            ServerPacketKind::SetPlayerPositionAndRotation => SetPlayerPositionAndRotation::id(),
            ServerPacketKind::SetPlayerRotation => SetPlayerRotation::id(),
            ServerPacketKind::ConfirmTeleportation => ConfirmTeleportation::id(),
            ServerPacketKind::PlayerCommand => PlayerCommand::id(),
        }
    }

    /// The state of a connection in which this kind of packet is known.
    pub fn state(self) -> (state: ConnectionState)
        ensures
            state == self.spec_state(),
    {
        match self {
            ServerPacketKind::Handshake => ConnectionState::Handshake,
            ServerPacketKind::StatusReq => ConnectionState::Status,
            ServerPacketKind::PingReq => ConnectionState::Status,
            ServerPacketKind::LoginStart => ConnectionState::Login,
            ServerPacketKind::EncryptionResponse => ConnectionState::Login,
            ServerPacketKind::LoginAck => ConnectionState::Login,
            ServerPacketKind::ClientInfo => ConnectionState::Configuration,
            ServerPacketKind::ConfigurationFinish => ConnectionState::Configuration,
            ServerPacketKind::ConfigurationKeepAlive => ConnectionState::Configuration,
            ServerPacketKind::PlayKeepAlive => ConnectionState::Play,
            ServerPacketKind::PlayerSession => ConnectionState::Play,
            ServerPacketKind::SetPlayerPosition => ConnectionState::Play,
            ServerPacketKind::SetPlayerPositionAndRotation => ConnectionState::Play,
            ServerPacketKind::SetPlayerRotation => ConnectionState::Play,
            ServerPacketKind::ConfirmTeleportation => ConnectionState::Play,
            ServerPacketKind::PlayerCommand => ConnectionState::Play,
        }
    }
}

impl ServerPacketsModel {
    /// The kind of this packet.
    pub open spec fn kind(self) -> ServerPacketKind {
        match self {
            ServerPacketsModel::Handshake(_) => ServerPacketKind::Handshake,
            ServerPacketsModel::StatusReq(_) => ServerPacketKind::StatusReq,
            ServerPacketsModel::PingReq(_) => ServerPacketKind::PingReq,
            ServerPacketsModel::LoginStart(_) => ServerPacketKind::LoginStart,
            ServerPacketsModel::EncryptionResponse(_) => ServerPacketKind::EncryptionResponse,
            ServerPacketsModel::LoginAck(_) => ServerPacketKind::LoginAck,
            ServerPacketsModel::ClientInfo(_) => ServerPacketKind::ClientInfo,
            ServerPacketsModel::ConfigurationFinish(_) => ServerPacketKind::ConfigurationFinish,
            ServerPacketsModel::ConfigurationKeepAlive(_) => ServerPacketKind::ConfigurationKeepAlive,
            ServerPacketsModel::PlayKeepAlive(_) => ServerPacketKind::PlayKeepAlive,
            ServerPacketsModel::PlayerSession(_) => ServerPacketKind::PlayerSession,
            ServerPacketsModel::SetPlayerPosition(_) => ServerPacketKind::SetPlayerPosition,
            ServerPacketsModel::SetPlayerPositionAndRotation(_) => ServerPacketKind::SetPlayerPositionAndRotation,
            ServerPacketsModel::SetPlayerRotation(_) => ServerPacketKind::SetPlayerRotation,
            ServerPacketsModel::ConfirmTeleportation(_) => ServerPacketKind::ConfirmTeleportation,
            ServerPacketsModel::PlayerCommand(_) => ServerPacketKind::PlayerCommand,
        }
    }

    /// Whether the format admits what this packet holds.
    pub open spec fn valid(self) -> bool {
        match self {
            ServerPacketsModel::Handshake(p) => Handshake::valid(p),
            ServerPacketsModel::StatusReq(p) => StatusReq::valid(p),
            ServerPacketsModel::PingReq(p) => PingReq::valid(p),
            ServerPacketsModel::LoginStart(p) => LoginStart::valid(p),
            ServerPacketsModel::EncryptionResponse(p) => EncryptionResponse::valid(p),
            ServerPacketsModel::LoginAck(p) => LoginAck::valid(p),
            ServerPacketsModel::ClientInfo(p) => ClientInfo::valid(p),
            ServerPacketsModel::ConfigurationFinish(p) => ConfigurationFinish::valid(p),
            ServerPacketsModel::ConfigurationKeepAlive(p) => ConfigurationKeepAlive::valid(p),
            ServerPacketsModel::PlayKeepAlive(p) => PlayKeepAlive::valid(p),
            ServerPacketsModel::PlayerSession(p) => PlayerSession::valid(p),
            ServerPacketsModel::SetPlayerPosition(p) => SetPlayerPosition::valid(p),
            ServerPacketsModel::SetPlayerPositionAndRotation(p) => SetPlayerPositionAndRotation::valid(p),
            ServerPacketsModel::SetPlayerRotation(p) => SetPlayerRotation::valid(p),
            ServerPacketsModel::ConfirmTeleportation(p) => ConfirmTeleportation::valid(p),
            ServerPacketsModel::PlayerCommand(p) => PlayerCommand::valid(p),
        }
    }

    /// The bytes of the fields of this packet.
    pub open spec fn encoding(self) -> Seq<u8> {
        match self {
            ServerPacketsModel::Handshake(p) => Handshake::encoding(p),
            ServerPacketsModel::StatusReq(p) => StatusReq::encoding(p),
            ServerPacketsModel::PingReq(p) => PingReq::encoding(p),
            ServerPacketsModel::LoginStart(p) => LoginStart::encoding(p),
            ServerPacketsModel::EncryptionResponse(p) => EncryptionResponse::encoding(p),
            ServerPacketsModel::LoginAck(p) => LoginAck::encoding(p),
            ServerPacketsModel::ClientInfo(p) => ClientInfo::encoding(p),
            ServerPacketsModel::ConfigurationFinish(p) => ConfigurationFinish::encoding(p),
            ServerPacketsModel::ConfigurationKeepAlive(p) => ConfigurationKeepAlive::encoding(p),
            ServerPacketsModel::PlayKeepAlive(p) => PlayKeepAlive::encoding(p),
            ServerPacketsModel::PlayerSession(p) => PlayerSession::encoding(p),
            ServerPacketsModel::SetPlayerPosition(p) => SetPlayerPosition::encoding(p),
            ServerPacketsModel::SetPlayerPositionAndRotation(p) => SetPlayerPositionAndRotation::encoding(p),
            ServerPacketsModel::SetPlayerRotation(p) => SetPlayerRotation::encoding(p),
            ServerPacketsModel::ConfirmTeleportation(p) => ConfirmTeleportation::encoding(p),
            ServerPacketsModel::PlayerCommand(p) => PlayerCommand::encoding(p),
        }
    }
}

impl ServerPackets {
    /// What this packet holds.
    pub open spec fn model(&self) -> ServerPacketsModel {
        match self {
            ServerPackets::Handshake(p) => ServerPacketsModel::Handshake(p.model()),
            ServerPackets::StatusReq(p) => ServerPacketsModel::StatusReq(p.model()),
            ServerPackets::PingReq(p) => ServerPacketsModel::PingReq(p.model()),
            ServerPackets::LoginStart(p) => ServerPacketsModel::LoginStart(p.model()),
            ServerPackets::EncryptionResponse(p) => ServerPacketsModel::EncryptionResponse(p.model()),
            ServerPackets::LoginAck(p) => ServerPacketsModel::LoginAck(p.model()),
            ServerPackets::ClientInfo(p) => ServerPacketsModel::ClientInfo(p.model()),
            ServerPackets::ConfigurationFinish(p) => ServerPacketsModel::ConfigurationFinish(p.model()),
            ServerPackets::ConfigurationKeepAlive(p) => ServerPacketsModel::ConfigurationKeepAlive(p.model()),
            ServerPackets::PlayKeepAlive(p) => ServerPacketsModel::PlayKeepAlive(p.model()),
            ServerPackets::PlayerSession(p) => ServerPacketsModel::PlayerSession(p.model()),
            ServerPackets::SetPlayerPosition(p) => ServerPacketsModel::SetPlayerPosition(p.model()),
            ServerPackets::SetPlayerPositionAndRotation(p) => ServerPacketsModel::SetPlayerPositionAndRotation(p.model()),
            ServerPackets::SetPlayerRotation(p) => ServerPacketsModel::SetPlayerRotation(p.model()),
            ServerPackets::ConfirmTeleportation(p) => ServerPacketsModel::ConfirmTeleportation(p.model()),
            ServerPackets::PlayerCommand(p) => ServerPacketsModel::PlayerCommand(p.model()),
        }
    }

    /// The kind of this packet.
    pub fn kind(&self) -> (kind: ServerPacketKind)
        ensures
            kind == self.model().kind(),
    {
        match self {
            ServerPackets::Handshake(_) => ServerPacketKind::Handshake,
            ServerPackets::StatusReq(_) => ServerPacketKind::StatusReq,
            ServerPackets::PingReq(_) => ServerPacketKind::PingReq,
            ServerPackets::LoginStart(_) => ServerPacketKind::LoginStart,
            ServerPackets::EncryptionResponse(_) => ServerPacketKind::EncryptionResponse,
            ServerPackets::LoginAck(_) => ServerPacketKind::LoginAck,
            ServerPackets::ClientInfo(_) => ServerPacketKind::ClientInfo,
            ServerPackets::ConfigurationFinish(_) => ServerPacketKind::ConfigurationFinish,
            ServerPackets::ConfigurationKeepAlive(_) => ServerPacketKind::ConfigurationKeepAlive,
            ServerPackets::PlayKeepAlive(_) => ServerPacketKind::PlayKeepAlive,
            ServerPackets::PlayerSession(_) => ServerPacketKind::PlayerSession,
            ServerPackets::SetPlayerPosition(_) => ServerPacketKind::SetPlayerPosition,
            ServerPackets::SetPlayerPositionAndRotation(_) => ServerPacketKind::SetPlayerPositionAndRotation,
            ServerPackets::SetPlayerRotation(_) => ServerPacketKind::SetPlayerRotation,
            ServerPackets::ConfirmTeleportation(_) => ServerPacketKind::ConfirmTeleportation,
            ServerPackets::PlayerCommand(_) => ServerPacketKind::PlayerCommand,
        }
    }
}

/// The kind of packet that a client means by `id` while its connection is
/// in `state`, if it means one.
pub open spec fn packet_kind(id: i32, state: ConnectionState) -> Option<ServerPacketKind> {
    match state {
        ConnectionState::Handshake => if id == 0x00 {
            Some(ServerPacketKind::Handshake)
        } else {
            None
        },
        ConnectionState::Status => if id == 0x00 {
            Some(ServerPacketKind::StatusReq)
        } else if id == 0x01 {
            Some(ServerPacketKind::PingReq)
        } else {
            None
        },
        ConnectionState::Login => if id == 0x00 {
            Some(ServerPacketKind::LoginStart)
        } else if id == 0x01 {
            Some(ServerPacketKind::EncryptionResponse)
        } else if id == 0x03 {
            Some(ServerPacketKind::LoginAck)
        } else {
            None
        },
        ConnectionState::Configuration => if id == 0x00 {
            Some(ServerPacketKind::ClientInfo)
        } else if id == 0x02 {
            Some(ServerPacketKind::ConfigurationFinish)
        } else if id == 0x03 {
            Some(ServerPacketKind::ConfigurationKeepAlive)
        } else {
            None
        },
        ConnectionState::Play => if id == 0x14 {
            Some(ServerPacketKind::PlayKeepAlive)
        } else if id == 0x06 {
            Some(ServerPacketKind::PlayerSession)
        } else if id == 0x16 {
            Some(ServerPacketKind::SetPlayerPosition)
        } else if id == 0x17 {
            Some(ServerPacketKind::SetPlayerPositionAndRotation)
        } else if id == 0x18 {
            Some(ServerPacketKind::SetPlayerRotation)
        } else if id == 0x21 {
            Some(ServerPacketKind::PlayerCommand)
        } else if id == 0x00 {
            Some(ServerPacketKind::ConfirmTeleportation)
        } else {
            None
        },
    }
}

/// The table of packets holds each kind under its own id and state, and
/// nothing else.
pub proof fn lemma_packet_kind(id: i32, state: ConnectionState, kind: ServerPacketKind)
    ensures
        packet_kind(id, state) == Some(kind) <==> id == kind.spec_id() && state
            == kind.spec_state(),
{
}

/// What decoding the fields of a packet of the kind `kind` at `pos` yields.
pub open spec fn fields_decoding(kind: ServerPacketKind, s: Seq<u8>, pos: int) -> Result<
    (ServerPacketsModel, int),
    CodecError,
> {
    match kind {
        ServerPacketKind::Handshake => match Handshake::decoding(s, pos) {
            Ok((p, next)) => Ok((ServerPacketsModel::Handshake(p), next)),
            Err(e) => Err(e),
        },
        ServerPacketKind::StatusReq => match StatusReq::decoding(s, pos) {
            Ok((p, next)) => Ok((ServerPacketsModel::StatusReq(p), next)),
            Err(e) => Err(e),
        },
        ServerPacketKind::PingReq => match PingReq::decoding(s, pos) {
            Ok((p, next)) => Ok((ServerPacketsModel::PingReq(p), next)),
            Err(e) => Err(e),
        },
        ServerPacketKind::LoginStart => match LoginStart::decoding(s, pos) {
            Ok((p, next)) => Ok((ServerPacketsModel::LoginStart(p), next)),
            Err(e) => Err(e),
        },
        ServerPacketKind::EncryptionResponse => match EncryptionResponse::decoding(s, pos) {
            Ok((p, next)) => Ok((ServerPacketsModel::EncryptionResponse(p), next)),
            Err(e) => Err(e),
        },
        ServerPacketKind::LoginAck => match LoginAck::decoding(s, pos) {
            Ok((p, next)) => Ok((ServerPacketsModel::LoginAck(p), next)),
            Err(e) => Err(e),
        },
        ServerPacketKind::ClientInfo => match ClientInfo::decoding(s, pos) {
            Ok((p, next)) => Ok((ServerPacketsModel::ClientInfo(p), next)),
            Err(e) => Err(e),
        },
        ServerPacketKind::ConfigurationFinish => match ConfigurationFinish::decoding(s, pos) {
            Ok((p, next)) => Ok((ServerPacketsModel::ConfigurationFinish(p), next)),
            Err(e) => Err(e),
        },
        ServerPacketKind::ConfigurationKeepAlive => match ConfigurationKeepAlive::decoding(s, pos) {
            Ok((p, next)) => Ok((ServerPacketsModel::ConfigurationKeepAlive(p), next)),
            Err(e) => Err(e),
        },
        ServerPacketKind::PlayKeepAlive => match PlayKeepAlive::decoding(s, pos) {
            Ok((p, next)) => Ok((ServerPacketsModel::PlayKeepAlive(p), next)),
            Err(e) => Err(e),
        },
        ServerPacketKind::PlayerSession => match PlayerSession::decoding(s, pos) {
            Ok((p, next)) => Ok((ServerPacketsModel::PlayerSession(p), next)),
            Err(e) => Err(e),
        },
        ServerPacketKind::SetPlayerPosition => match SetPlayerPosition::decoding(s, pos) {
            Ok((p, next)) => Ok((ServerPacketsModel::SetPlayerPosition(p), next)),
            Err(e) => Err(e),
        },
        ServerPacketKind::SetPlayerPositionAndRotation => match SetPlayerPositionAndRotation::decoding(s, pos) {
            Ok((p, next)) => Ok((ServerPacketsModel::SetPlayerPositionAndRotation(p), next)),
            Err(e) => Err(e),
        },
        ServerPacketKind::SetPlayerRotation => match SetPlayerRotation::decoding(s, pos) {
            Ok((p, next)) => Ok((ServerPacketsModel::SetPlayerRotation(p), next)),
            Err(e) => Err(e),
        },
        ServerPacketKind::ConfirmTeleportation => match ConfirmTeleportation::decoding(s, pos) {
            Ok((p, next)) => Ok((ServerPacketsModel::ConfirmTeleportation(p), next)),
            Err(e) => Err(e),
        },
        ServerPacketKind::PlayerCommand => match PlayerCommand::decoding(s, pos) {
            Ok((p, next)) => Ok((ServerPacketsModel::PlayerCommand(p), next)),
            Err(e) => Err(e),
        },
    }
}

/// Decoded fields make a packet of the kind asked for, are admitted and end
/// inside the input.
pub proof fn lemma_fields_sound(kind: ServerPacketKind, s: Seq<u8>, pos: int)
    requires
        0 <= pos <= s.len(),
    ensures
        match fields_decoding(kind, s, pos) {
            Ok((m, next)) => pos <= next <= s.len() && m.valid() && m.kind() == kind,
            Err(_) => true,
        },
{
    match kind {
        ServerPacketKind::Handshake => Handshake::lemma_decoding_sound(s, pos),
        ServerPacketKind::StatusReq => StatusReq::lemma_decoding_sound(s, pos),
        ServerPacketKind::PingReq => PingReq::lemma_decoding_sound(s, pos),
        ServerPacketKind::LoginStart => LoginStart::lemma_decoding_sound(s, pos),
        ServerPacketKind::EncryptionResponse => EncryptionResponse::lemma_decoding_sound(s, pos),
        ServerPacketKind::LoginAck => LoginAck::lemma_decoding_sound(s, pos),
        ServerPacketKind::ClientInfo => ClientInfo::lemma_decoding_sound(s, pos),
        ServerPacketKind::ConfigurationFinish => ConfigurationFinish::lemma_decoding_sound(s, pos),
        ServerPacketKind::ConfigurationKeepAlive => ConfigurationKeepAlive::lemma_decoding_sound(s, pos),
        ServerPacketKind::PlayKeepAlive => PlayKeepAlive::lemma_decoding_sound(s, pos),
        ServerPacketKind::PlayerSession => PlayerSession::lemma_decoding_sound(s, pos),
        ServerPacketKind::SetPlayerPosition => SetPlayerPosition::lemma_decoding_sound(s, pos),
        ServerPacketKind::SetPlayerPositionAndRotation => SetPlayerPositionAndRotation::lemma_decoding_sound(s, pos),
        ServerPacketKind::SetPlayerRotation => SetPlayerRotation::lemma_decoding_sound(s, pos),
        ServerPacketKind::ConfirmTeleportation => ConfirmTeleportation::lemma_decoding_sound(s, pos),
        ServerPacketKind::PlayerCommand => PlayerCommand::lemma_decoding_sound(s, pos),
    }
}

/// Decoding the fields of an admitted packet, as its own kind, gives the
/// packet back.
#[verifier::rlimit(80)]
pub proof fn lemma_fields_round_trip(m: ServerPacketsModel, pre: Seq<u8>, rest: Seq<u8>)
    requires
        m.valid(),
    ensures
        fields_decoding(m.kind(), pre + m.encoding() + rest, pre.len() as int) == Ok::<
            (ServerPacketsModel, int),
            CodecError,
        >((m, (pre.len() + m.encoding().len()) as int)),
{
    match m {
        ServerPacketsModel::Handshake(p) => Handshake::lemma_round_trip(p, pre, rest),
        ServerPacketsModel::StatusReq(p) => StatusReq::lemma_round_trip(p, pre, rest),
        ServerPacketsModel::PingReq(p) => PingReq::lemma_round_trip(p, pre, rest),
        ServerPacketsModel::LoginStart(p) => LoginStart::lemma_round_trip(p, pre, rest),
        ServerPacketsModel::EncryptionResponse(p) => EncryptionResponse::lemma_round_trip(p, pre, rest),
        ServerPacketsModel::LoginAck(p) => LoginAck::lemma_round_trip(p, pre, rest),
        ServerPacketsModel::ClientInfo(p) => ClientInfo::lemma_round_trip(p, pre, rest),
        ServerPacketsModel::ConfigurationFinish(p) => ConfigurationFinish::lemma_round_trip(p, pre, rest),
        ServerPacketsModel::ConfigurationKeepAlive(p) => ConfigurationKeepAlive::lemma_round_trip(p, pre, rest),
        ServerPacketsModel::PlayKeepAlive(p) => PlayKeepAlive::lemma_round_trip(p, pre, rest),
        ServerPacketsModel::PlayerSession(p) => PlayerSession::lemma_round_trip(p, pre, rest),
        ServerPacketsModel::SetPlayerPosition(p) => SetPlayerPosition::lemma_round_trip(p, pre, rest),
        ServerPacketsModel::SetPlayerPositionAndRotation(p) => SetPlayerPositionAndRotation::lemma_round_trip(p, pre, rest),
        ServerPacketsModel::SetPlayerRotation(p) => SetPlayerRotation::lemma_round_trip(p, pre, rest),
        ServerPacketsModel::ConfirmTeleportation(p) => ConfirmTeleportation::lemma_round_trip(p, pre, rest),
        ServerPacketsModel::PlayerCommand(p) => PlayerCommand::lemma_round_trip(p, pre, rest),
    }
}

/// Decodes the fields of a packet of the kind `kind` at `pos`.
pub fn read_fields(kind: ServerPacketKind, src: &[u8], pos: usize) -> (r: Result<
    (ServerPackets, usize),
    CodecError,
>)
    requires
        pos <= src@.len(),
    ensures
        match fields_decoding(kind, src@, pos as int) {
            Ok((m, next)) => r is Ok && r->Ok_0.0.model() == m && r->Ok_0.1 == next,
            Err(e) => r is Err && r->Err_0 == e,
        },
{
    match kind {
        ServerPacketKind::Handshake => match Handshake::read(src, pos) {
            Ok((p, next)) => Ok((ServerPackets::Handshake(p), next)),
            Err(e) => Err(e),
        },
        ServerPacketKind::StatusReq => match StatusReq::read(src, pos) {
            Ok((p, next)) => Ok((ServerPackets::StatusReq(p), next)),
            Err(e) => Err(e),
        },
        ServerPacketKind::PingReq => match PingReq::read(src, pos) {
            Ok((p, next)) => Ok((ServerPackets::PingReq(p), next)),
            Err(e) => Err(e),
        },
        ServerPacketKind::LoginStart => match LoginStart::read(src, pos) {
            Ok((p, next)) => Ok((ServerPackets::LoginStart(p), next)),
            Err(e) => Err(e),
        },
        ServerPacketKind::EncryptionResponse => match EncryptionResponse::read(src, pos) {
            Ok((p, next)) => Ok((ServerPackets::EncryptionResponse(p), next)),
            Err(e) => Err(e),
        },
        ServerPacketKind::LoginAck => match LoginAck::read(src, pos) {
            Ok((p, next)) => Ok((ServerPackets::LoginAck(p), next)),
            Err(e) => Err(e),
        },
        ServerPacketKind::ClientInfo => match ClientInfo::read(src, pos) {
            Ok((p, next)) => Ok((ServerPackets::ClientInfo(p), next)),
            Err(e) => Err(e),
        },
        ServerPacketKind::ConfigurationFinish => match ConfigurationFinish::read(src, pos) {
            Ok((p, next)) => Ok((ServerPackets::ConfigurationFinish(p), next)),
            Err(e) => Err(e),
        },
        ServerPacketKind::ConfigurationKeepAlive => match ConfigurationKeepAlive::read(src, pos) {
            Ok((p, next)) => Ok((ServerPackets::ConfigurationKeepAlive(p), next)),
            Err(e) => Err(e),
        },
        ServerPacketKind::PlayKeepAlive => match PlayKeepAlive::read(src, pos) {
            Ok((p, next)) => Ok((ServerPackets::PlayKeepAlive(p), next)),
            Err(e) => Err(e),
        },
        ServerPacketKind::PlayerSession => match PlayerSession::read(src, pos) {
            Ok((p, next)) => Ok((ServerPackets::PlayerSession(p), next)),
            Err(e) => Err(e),
        },
        ServerPacketKind::SetPlayerPosition => match SetPlayerPosition::read(src, pos) {
            Ok((p, next)) => Ok((ServerPackets::SetPlayerPosition(p), next)),
            Err(e) => Err(e),
        },
        ServerPacketKind::SetPlayerPositionAndRotation => match SetPlayerPositionAndRotation::read(src, pos) {
            Ok((p, next)) => Ok((ServerPackets::SetPlayerPositionAndRotation(p), next)),
            Err(e) => Err(e),
        },
        ServerPacketKind::SetPlayerRotation => match SetPlayerRotation::read(src, pos) {
            Ok((p, next)) => Ok((ServerPackets::SetPlayerRotation(p), next)),
            Err(e) => Err(e),
        },
        ServerPacketKind::ConfirmTeleportation => match ConfirmTeleportation::read(src, pos) {
            Ok((p, next)) => Ok((ServerPackets::ConfirmTeleportation(p), next)),
            Err(e) => Err(e),
        },
        ServerPacketKind::PlayerCommand => match PlayerCommand::read(src, pos) {
            Ok((p, next)) => Ok((ServerPackets::PlayerCommand(p), next)),
            Err(e) => Err(e),
        },
    }
}

} // verus!
