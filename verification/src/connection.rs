use crate::protocol_types::compound::{PosRotGround, Uuid};
use crate::protocol_types::numbers::{Double, Float};
use crate::protocol_types::primitives::VarInt;
use openssl::symm::Crypter;
use vstd::prelude::*;

verus! {

/// Where a connection stands in the protocol.
#[derive(Clone, Copy, Debug, PartialEq, Eq, Structural)]
pub enum ConnectionState {
    Handshake,
    Status,
    Login,
    Configuration,
    Play,
}

/// What the server knows of one connection.
pub struct ConnectionInfo {
    pub state: ConnectionState,
    /// The token that the client has to send back encrypted.
    pub verify_token: Vec<u8>,
    /// The cipher for what is sent, once encryption is on.
    pub encrypter: Option<Crypter>,
    /// The cipher for what is received, once encryption is on.
    pub decrypter: Option<Crypter>,
    pub username: String,
    pub uuid: Uuid,
    /// The id of the teleport last sent.
    pub teleport_id: VarInt,
    /// The id of the keepalive last sent.
    pub keep_alive_id: i64,
    pub closed: bool,
    /// Where the client last said the player was.
    pub position: PosRotGround,
}

impl ConnectionInfo {
    /// The state of the connection.
    pub open spec fn spec_state(&self) -> ConnectionState {
        self.state
    }

    /// Whether the connection is closed.
    pub open spec fn spec_closed(&self) -> bool {
        self.closed
    }

    /// Whether `other` differs from this record in nothing but the ciphers.
    pub open spec fn same_but_ciphers(&self, other: &ConnectionInfo) -> bool {
        &&& self.spec_state() == other.spec_state()
        &&& self.spec_closed() == other.spec_closed()
        &&& self.verify_token@ == other.verify_token@
        &&& self.username@ == other.username@
        &&& self.uuid == other.uuid
        &&& self.teleport_id == other.teleport_id
        &&& self.keep_alive_id == other.keep_alive_id
        &&& self.position == other.position
    }

    /// Whether `other` has the same ciphers, by presence and by value.
    pub open spec fn same_ciphers(&self, other: &ConnectionInfo) -> bool {
        self.encrypter == other.encrypter && self.decrypter == other.decrypter
    }

    /// A connection that has just been accepted: in the handshake, not
    /// encrypted, nobody at the origin.
    pub fn new() -> (info: ConnectionInfo)
        ensures
            info.spec_state() == ConnectionState::Handshake,
            !info.spec_closed(),
            info.verify_token@ == seq![0u8, 0u8, 0u8, 0u8],
            info.encrypter is None,
            info.decrypter is None,
            info.username@ == Seq::<char>::empty(),
            info.uuid == (Uuid { value: 0 }),
            info.teleport_id == (VarInt { value: 0 }),
            info.keep_alive_id == 0,
            info.position == (PosRotGround {
                x: Double { bits: 0 },
                y: Double { bits: 0 },
                z: Double { bits: 0 },
                pitch: Float { bits: 0 },
                yaw: Float { bits: 0 },
                on_ground: false,
            }),
    {
        let mut verify_token: Vec<u8> = Vec::new();
        verify_token.push(0);
        verify_token.push(0);
        verify_token.push(0);
        verify_token.push(0);
        assert(verify_token@ =~= seq![0u8, 0u8, 0u8, 0u8]);
        ConnectionInfo {
            state: ConnectionState::Handshake,
            verify_token,
            encrypter: None,
            decrypter: None,
            username: String::new(),
            uuid: Uuid::nil(),
            teleport_id: VarInt { value: 0 },
            keep_alive_id: 0,
            closed: false,
            position: PosRotGround {
                x: Double { bits: 0 },
                y: Double { bits: 0 },
                z: Double { bits: 0 },
                pitch: Float { bits: 0 },
                yaw: Float { bits: 0 },
                on_ground: false,
            },
        }
    }

    /// Moves the connection to `state`.
    pub fn set_state(&mut self, state: ConnectionState)
        ensures
            final(self).spec_state() == state,
            final(self).spec_closed() == old(self).spec_closed(),
            final(self).verify_token == old(self).verify_token,
            final(self).username == old(self).username,
            final(self).uuid == old(self).uuid,
            final(self).teleport_id == old(self).teleport_id,
            final(self).keep_alive_id == old(self).keep_alive_id,
            final(self).position == old(self).position,
            final(self).same_ciphers(old(self)),
    {
        self.state = state;
    }

    /// The state of the connection.
    pub fn state(&self) -> (state: ConnectionState)
        ensures
            state == self.spec_state(),
    {
        self.state
    }

    /// Closes the connection.
    pub fn close(&mut self)
        ensures
            final(self).spec_closed(),
            final(self).spec_state() == old(self).spec_state(),
            final(self).verify_token == old(self).verify_token,
            final(self).username == old(self).username,
            final(self).uuid == old(self).uuid,
            final(self).teleport_id == old(self).teleport_id,
            final(self).keep_alive_id == old(self).keep_alive_id,
            final(self).position == old(self).position,
            final(self).same_ciphers(old(self)),
    {
        self.closed = true;
    }

    /// Whether the connection is closed.
    pub fn closed(&self) -> (closed: bool)
        ensures
            closed == self.spec_closed(),
    {
        self.closed
    }
}

} // verus!
