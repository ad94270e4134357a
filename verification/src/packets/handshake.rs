//! The handshake: the first frame of every connection, which picks the
//! protocol version and the next phase.
use vstd::prelude::*;

use crate::codec::{parse_string, parse_u16, parse_varint, read_string, read_u16, read_varint, DecodeError};
use crate::connection::{Connection, ConnectionPhase, ProtocolError};
use crate::data_types::{Packet, VarInt};
use crate::world::World;

verus! {

/// The protocol version this server speaks.
pub const PROTOCOL_VERSION: i32 = 774;

/// Mathematical value of a handshake.
pub ghost struct SpecHandshakePacket {
    /// The client's protocol version.
    pub protocol_version: i32,
    /// The address the client dialed.
    pub server_address: Seq<char>,
    /// The port the client dialed.
    pub port: u16,
    /// The requested next phase: 1 for status, 2 for login.
    pub next_state: i32,
}

/// The handshake: protocol version, dialed address and port, and the
/// intent deciding the next phase.
pub struct HandshakePacket {
    /// The client's protocol version.
    pub protocol_version: VarInt,
    /// The address the client dialed.
    pub server_address: String,
    /// The port the client dialed.
    pub port: u16,
    /// The requested next phase: 1 for status, 2 for login.
    pub next_state: VarInt,
}

impl View for HandshakePacket {
    type V = SpecHandshakePacket;

    open spec fn view(&self) -> SpecHandshakePacket {
        SpecHandshakePacket {
            protocol_version: self.protocol_version.0,
            server_address: self.server_address@,
            port: self.port,
            next_state: self.next_state.0,
        }
    }
}

/// Parse of a handshake body: version, address, port, intent.
pub open spec fn parse_handshake(data: Seq<u8>, pos: int) -> Result<(SpecHandshakePacket, int), DecodeError> {
    match parse_varint(data, pos) {
        Err(e) => Err(e),
        Ok((pv, p1)) => match parse_string(data, p1) {
            Err(e) => Err(e),
            Ok((server_address, p2)) => match parse_u16(data, p2) {
                Err(e) => Err(e),
                Ok((port, p3)) => match parse_varint(data, p3) {
                    Err(e) => Err(e),
                    Ok((ns, p4)) => Ok((SpecHandshakePacket {
                        protocol_version: pv as i32,
                        server_address,
                        port,
                        next_state: ns as i32,
                    }, p4)),
                },
            },
        },
    }
}

impl Packet for HandshakePacket {
    open spec fn parse(data: Seq<u8>, pos: int) -> Result<(SpecHandshakePacket, int), DecodeError> {
        parse_handshake(data, pos)
    }

    open spec fn wf(&self) -> bool {
        true
    }

    fn decode(data: &[u8], pos: usize) -> (r: Result<(Self, usize), DecodeError>) {
        let (pv, p1) = match read_varint(data, pos) {
            Ok(x) => x,
            Err(e) => {
                return Err(e);
            }
        };
        let (server_address, p2) = match read_string(data, p1) {
            Ok(x) => x,
            Err(e) => {
                return Err(e);
            }
        };
        let (port, p3) = match read_u16(data, p2) {
            Ok(x) => x,
            Err(e) => {
                return Err(e);
            }
        };
        let (ns, p4) = match read_varint(data, p3) {
            Ok(x) => x,
            Err(e) => {
                return Err(e);
            }
        };
        proof {
            assert((pv as u32) as i32 == pv) by (bit_vector);
            assert((ns as u32) as i32 == ns) by (bit_vector);
        }
        Ok((HandshakePacket {
            protocol_version: VarInt(pv),
            server_address,
            port,
            next_state: VarInt(ns),
        }, p4))
    }
}

impl HandshakePacket {
    /// Checks the protocol version and moves the connection to the phase
    /// the intent asks for: 1 to status, 2 to login, anything else fatal.
    pub fn handle(&self, ctx: &mut Connection, world: &mut World) -> (r: Result<(), ProtocolError>)
        ensures
            *final(world) == *old(world),
            final(ctx).is_alive == old(ctx).is_alive,
            final(ctx).queued() == old(ctx).queued(),
            match r {
                Ok(()) => {
                    &&& self.protocol_version.0 == PROTOCOL_VERSION
                    &&& (self.next_state.0 == 1 || self.next_state.0 == 2)
                    &&& final(ctx).phase == (if self.next_state.0 == 1 {
                        ConnectionPhase::Status
                    } else {
                        ConnectionPhase::Login
                    })
                },
                Err(e) => {
                    &&& *final(ctx) == *old(ctx)
                    &&& (if self.protocol_version.0 != PROTOCOL_VERSION {
                        e == ProtocolError::VersionMismatch
                    } else {
                        e == ProtocolError::InvalidIntent && self.next_state.0 != 1
                            && self.next_state.0 != 2
                    })
                },
            },
    {
        if self.protocol_version.0 != PROTOCOL_VERSION {
            return Err(ProtocolError::VersionMismatch);
        }
        if self.next_state.0 == 1 {
            ctx.phase = ConnectionPhase::Status;
            Ok(())
        } else if self.next_state.0 == 2 {
            ctx.phase = ConnectionPhase::Login;
            Ok(())
        } else {
            Err(ProtocolError::InvalidIntent)
        }
    }
}

} // verus!
