//! Packet kinds and the size of their leading length field.

use vstd::prelude::*;

verus! {

/// Leading length field of four bytes (the default).
pub const PKT_LEADING_FIELD_SIZE_DEFAULT: usize = 4;

/// Leading length field of two bytes (packets that come from a client).
pub const FROM_CLIENT_PKT_LEADING_FIELD_SIZE: usize = 2;

/// Kind of a packet stream, which decides its header layout and obfuscation.
#[derive(Debug, PartialEq, Eq, Structural, Copy, Clone)]
pub enum PacketType {
    /// Packet between servers: not obfuscated.
    Server,
    /// Packet from a client: obfuscated on receive, plain on send.
    Client,
    /// Simulated client: obfuscated on send, plain on receive.
    Robot,
    /// Packet from a client over websocket.
    ClientWs,
    /// Simulated client over websocket.
    RobotWs,
    /// Redis client stream.
    Redis,
}

/// The leading field size of a packet type, as a plain number.
pub open spec fn spec_leading_field_size(packet_type: PacketType) -> u8 {
    match packet_type {
        PacketType::Client => 2u8,
        _ => 4u8,
    }
}

/// Client packets carry a two byte leading field, all others four bytes.
pub fn get_leading_field_size(packet_type: PacketType) -> (r: u8)
    ensures
        r == spec_leading_field_size(packet_type),
{
    match packet_type {
        PacketType::Client => FROM_CLIENT_PKT_LEADING_FIELD_SIZE as u8,
        _ => PKT_LEADING_FIELD_SIZE_DEFAULT as u8,
    }
}

} // verus!
