use crate::connection::ConnectionState;
use crate::protocol_types::compound::Position;
use crate::protocol_types::primitives::VarInt;
use vstd::prelude::*;

verus! {

/// Why a byte sequence could not be decoded.
#[derive(Debug, Clone, Copy, PartialEq, Eq, Structural)]
pub enum CodecError {
    /// The input ended before the value was complete.
    UnexpectedEnd,
    /// A VarInt went on past its fifth byte.
    VarIntTooBig,
    /// A VarLong went on past its tenth byte.
    VarLongTooBig,
    /// A length prefix was negative.
    NegativeLength,
    /// A string announced more than 131071 bytes.
    StringTooLong,
    /// The bytes of a string were not UTF-8.
    InvalidUtf8,
    /// A recipe carried a type tag that is not in the table.
    UnknownRecipe,
    /// A player action code outside 0..=6.
    InvalidPlayerAction,
    /// A game event with a code or a number that means nothing.
    InvalidGameEvent,
    /// The bytes of a named binary tag were malformed.
    Nbt,
}

/// What can go wrong on a connection.
#[derive(Debug)]
pub enum ProtError {
    /// The handshake asked for a state that is neither status nor login.
    InvalidNextState(VarInt),
    /// Nobody listens on the queue of the connection any more.
    ChannelClosed,
    /// The client answered a keepalive with another id than the one sent:
    /// the id sent, then the id received.
    KeepAliveIdMismatch(i64, i64),
    /// The client confirmed another teleport than the one sent: the id
    /// sent, then the id received.
    TeleportIdMismatch(VarInt, VarInt),
    /// A position that lies outside its section.
    PositionOutOfBounds(Position),
    /// The client sent back another verify token than the one it was given.
    VerifyTokenMismatch,
    /// A packet whose id means nothing in the state of the connection.
    UnknownPacket(VarInt, ConnectionState),
    /// The bytes of a packet could not be decoded.
    Codec(CodecError),
    /// Anything else, in words.
    Any(String),
}

impl ProtError {
    /// Whether the error ends the connection.
    pub open spec fn spec_is_fatal(&self) -> bool {
        match self {
            ProtError::InvalidNextState(_) => true,
            ProtError::KeepAliveIdMismatch(_, _) => true,
            ProtError::TeleportIdMismatch(_, _) => true,
            ProtError::PositionOutOfBounds(_) => true,
            ProtError::ChannelClosed => true,
            ProtError::VerifyTokenMismatch => true,
            ProtError::UnknownPacket(_, _) => false,
            ProtError::Codec(_) => false,
            ProtError::Any(_) => false,
        }
    }

    /// Whether the error ends the connection.
    pub fn is_fatal(&self) -> (fatal: bool)
        ensures
            fatal == self.spec_is_fatal(),
    {
        match self {
            ProtError::InvalidNextState(_) => true,
            ProtError::KeepAliveIdMismatch(_, _) => true,
            ProtError::TeleportIdMismatch(_, _) => true,
            ProtError::PositionOutOfBounds(_) => true,
            ProtError::ChannelClosed => true,
            ProtError::VerifyTokenMismatch => true,
            ProtError::UnknownPacket(_, _) => false,
            ProtError::Codec(_) => false,
            ProtError::Any(_) => false,
        }
    }
}

} // verus!
