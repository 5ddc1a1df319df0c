//! A server for the Minecraft Java Edition protocol, version 1.20.2: the
//! wire format of its packets, the steps of a connection from handshake to
//! play, and the storage of the blocks and biomes of a world.

pub mod chunk;
pub mod connection;
pub mod encryption;
pub mod err;
pub mod nbt;
pub mod packets;
pub mod protocol_types;
pub mod protocol_util;
pub mod serve;
