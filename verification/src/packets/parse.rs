use crate::connection::ConnectionState;
use crate::err::{CodecError, ProtError};
use crate::packets::server::{
    fields_decoding, lemma_fields_round_trip, lemma_packet_kind, packet_kind, read_fields,
    ServerPacketKind, ServerPackets, ServerPacketsModel,
};
use crate::protocol_types::primitives::VarInt;
use crate::protocol_types::traits::{lemma_concat_assoc, Prot, ReadProt};
use vstd::prelude::*;

verus! {

/// What the bytes read so far say of the length of a frame.
#[derive(Clone, Copy, Debug, PartialEq, Eq, Structural)]
pub enum LengthStep {
    /// The length is not complete: one more byte is needed.
    NeedMore,
    /// The frame has this many bytes behind its length.
    Length(usize),
    /// The length is negative.
    Negative,
    /// The length goes on past its fifth byte.
    TooBig,
}

/// What `bytes` say of the length of a frame when read as a VarInt.
pub open spec fn spec_length_prefix(bytes: Seq<u8>) -> LengthStep {
    match VarInt::decoding(bytes, 0) {
        Ok((length, _)) => if length.value < 0 {
            LengthStep::Negative
        } else {
            LengthStep::Length(length.value as usize)
        },
        Err(CodecError::VarIntTooBig) => LengthStep::TooBig,
        Err(_) => LengthStep::NeedMore,
    }
}

/// Reads the length of a frame from the bytes gathered so far. A caller
/// that hands over one byte more each time learns the length as soon as it
/// is complete, however the bytes reach it.
pub fn length_prefix(bytes: &[u8]) -> (step: LengthStep)
    ensures
        step == spec_length_prefix(bytes@),
{
    match VarInt::read(bytes, 0) {
        Ok((length, _)) => if length.value < 0 {
            LengthStep::Negative
        } else {
            LengthStep::Length(length.value as usize)
        },
        Err(CodecError::VarIntTooBig) => LengthStep::TooBig,
        Err(_) => LengthStep::NeedMore,
    }
}

/// What a frame means while the connection is in `state`: the id at its
/// start says, together with the state, which packet follows, and the rest
/// are the fields of that packet. Bytes behind the fields are left aside.
pub open spec fn packet_decoding(frame: Seq<u8>, state: ConnectionState) -> Result<
    ServerPacketsModel,
    ProtError,
> {
    match VarInt::decoding(frame, 0) {
        Err(e) => Err(ProtError::Codec(e)),
        Ok((id, start)) => match packet_kind(id.value, state) {
            None => Err(ProtError::UnknownPacket(id, state)),
            Some(kind) => match fields_decoding(kind, frame, start) {
                Ok((packet, _)) => Ok(packet),
                Err(e) => Err(ProtError::Codec(e)),
            },
        },
    }
}

/// Reads the packet that `frame` holds while the connection is in `state`.
/// An id that means nothing in that state is an error that names the id
/// and the state; it ends no connection.
pub fn parse_packet(frame: &[u8], state: ConnectionState) -> (r: Result<ServerPackets, ProtError>)
    ensures
        match packet_decoding(frame@, state) {
            Ok(packet) => r is Ok && r->Ok_0.model() == packet,
            Err(e) => r is Err && r->Err_0 == e,
        },
{
    proof {
        VarInt::lemma_decoding_sound(frame@, 0);
    }
    let (id, start) = match VarInt::read(frame, 0) {
        Ok(found) => found,
        Err(e) => {
            return Err(ProtError::Codec(e));
        },
    };
    let kind = match (id.value, state) {
        (0x00, ConnectionState::Handshake) => ServerPacketKind::Handshake,
        (0x00, ConnectionState::Status) => ServerPacketKind::StatusReq,
        (0x01, ConnectionState::Status) => ServerPacketKind::PingReq,
        (0x00, ConnectionState::Login) => ServerPacketKind::LoginStart,
        (0x01, ConnectionState::Login) => ServerPacketKind::EncryptionResponse,
        (0x03, ConnectionState::Login) => ServerPacketKind::LoginAck,
        (0x00, ConnectionState::Configuration) => ServerPacketKind::ClientInfo,
        (0x02, ConnectionState::Configuration) => ServerPacketKind::ConfigurationFinish,
        (0x03, ConnectionState::Configuration) => ServerPacketKind::ConfigurationKeepAlive,
        (0x14, ConnectionState::Play) => ServerPacketKind::PlayKeepAlive,
        (0x06, ConnectionState::Play) => ServerPacketKind::PlayerSession,
        (0x16, ConnectionState::Play) => ServerPacketKind::SetPlayerPosition,
        (0x17, ConnectionState::Play) => ServerPacketKind::SetPlayerPositionAndRotation,
        (0x18, ConnectionState::Play) => ServerPacketKind::SetPlayerRotation,
        (0x21, ConnectionState::Play) => ServerPacketKind::PlayerCommand,
        (0x00, ConnectionState::Play) => ServerPacketKind::ConfirmTeleportation,
        _ => {
            return Err(ProtError::UnknownPacket(id, state));
        },
    };
    match read_fields(kind, frame, start) {
        Ok((packet, _)) => Ok(packet),
        Err(e) => Err(ProtError::Codec(e)),
    }
}

/// The frame of a packet of a client, without its length: the id of its
/// kind, then its fields.
pub open spec fn packet_frame(packet: ServerPacketsModel) -> Seq<u8> {
    VarInt::encoding(VarInt { value: packet.kind().spec_id() as i32 }) + packet.encoding()
}

/// Reading the frame of an admitted packet, in the state in which its kind
/// is known, gives the packet back, whatever follows its fields.
pub proof fn lemma_packet_round_trip(packet: ServerPacketsModel, tail: Seq<u8>)
    requires
        packet.valid(),
    ensures
        packet_decoding(packet_frame(packet) + tail, packet.kind().spec_state()) == Ok::<
            ServerPacketsModel,
            ProtError,
        >(packet),
{
    let id = VarInt { value: packet.kind().spec_id() as i32 };
    let head = VarInt::encoding(id);
    let fields = packet.encoding();
    lemma_empty_prefix(head);
    lemma_concat_assoc(head, fields, tail);
    VarInt::lemma_round_trip(id, Seq::empty(), fields + tail);
    lemma_packet_kind(id.value, packet.kind().spec_state(), packet.kind());
    lemma_fields_round_trip(packet, head, tail);
}

/// Nothing in front of a sequence leaves it as it is.
proof fn lemma_empty_prefix(a: Seq<u8>)
    ensures
        Seq::<u8>::empty() + a == a,
        Seq::<u8>::empty().len() == 0,
{
    assert(Seq::<u8>::empty() + a =~= a);
}

} // verus!
