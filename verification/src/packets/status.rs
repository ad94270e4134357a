//! Status-phase packets: the list query and the ping echo.
use vstd::prelude::*;

use crate::codec::{i64_bytes, parse_i64, read_i64, string_encoding, write_i64, write_string, DecodeError};
use crate::connection::{frame_bytes, Connection, ProtocolError, SpecNetMessage};
use crate::data_types::{Packet, PacketWrite};
use crate::world::World;

verus! {

use vstd::utf8::encode_utf8;

/// A status request: an empty body asking for the server list text.
pub struct StatusRequestPacket {}

impl View for StatusRequestPacket {
    type V = ();

    open spec fn view(&self) -> () {
        ()
    }
}

impl Packet for StatusRequestPacket {
    open spec fn parse(data: Seq<u8>, pos: int) -> Result<((), int), DecodeError> {
        Ok(((), pos))
    }

    open spec fn wf(&self) -> bool {
        true
    }

    fn decode(data: &[u8], pos: usize) -> (r: Result<(Self, usize), DecodeError>) {
        Ok((StatusRequestPacket {}, pos))
    }
}

/// The status response: the server list text as one wire string.
pub struct StatusResponsePacket {
    /// The status text, already rendered.
    pub json_response: String,
}

impl PacketWrite for StatusResponsePacket {
    open spec fn encoded(&self) -> Seq<u8> {
        string_encoding(self.json_response@)
    }

    open spec fn writable(&self) -> bool {
        encode_utf8(self.json_response@).len() <= 0x7fff_ffff
    }

    fn write_to(&self, buf: &mut Vec<u8>) {
        write_string(self.json_response.as_str(), buf);
    }
}

impl StatusRequestPacket {
    /// Answers the query with the world's status text under opcode 0x00.
    pub fn handle(&self, ctx: &mut Connection, world: &mut World) -> (r: Result<(), ProtocolError>)
        requires
            old(world).wf(),
        ensures
            *final(world) == *old(world),
            final(ctx).phase == old(ctx).phase,
            final(ctx).is_alive == old(ctx).is_alive,
            r is Ok,
            final(ctx).queued() == old(ctx).queued() + seq![SpecNetMessage::SendPacket(
                frame_bytes(0x00, string_encoding(old(world).status_json@)))],
    {
        let response = StatusResponsePacket { json_response: world.status_json.clone() };
        proof {
            crate::codec::lemma_varint_encode_len(encode_utf8(world.status_json@).len() as u32);
        }
        ctx.send_packet(0x00, response);
        Ok(())
    }
}

/// A ping: a client timestamp to echo back.
pub struct PingRequestPacket {
    /// The client's timestamp, returned unchanged.
    pub timestamp: i64,
}

impl View for PingRequestPacket {
    type V = i64;

    open spec fn view(&self) -> i64 {
        self.timestamp
    }
}

impl Packet for PingRequestPacket {
    open spec fn parse(data: Seq<u8>, pos: int) -> Result<(i64, int), DecodeError> {
        parse_i64(data, pos)
    }

    open spec fn wf(&self) -> bool {
        true
    }

    fn decode(data: &[u8], pos: usize) -> (r: Result<(Self, usize), DecodeError>) {
        match read_i64(data, pos) {
            Ok((timestamp, end)) => Ok((PingRequestPacket { timestamp }, end)),
            Err(e) => Err(e),
        }
    }
}

/// The pong: the ping's timestamp echoed back.
pub struct PongResponsePacket {
    /// The echoed timestamp.
    pub timestamp: i64,
}

impl PacketWrite for PongResponsePacket {
    open spec fn encoded(&self) -> Seq<u8> {
        i64_bytes(self.timestamp)
    }

    open spec fn writable(&self) -> bool {
        true
    }

    fn write_to(&self, buf: &mut Vec<u8>) {
        write_i64(self.timestamp, buf);
    }
}

impl PingRequestPacket {
    /// Echoes the timestamp under opcode 0x01 and closes the connection:
    /// the status exchange ends after one request and one ping.
    pub fn handle(&self, ctx: &mut Connection, world: &mut World) -> (r: Result<(), ProtocolError>)
        ensures
            *final(world) == *old(world),
            final(ctx).phase == old(ctx).phase,
            !final(ctx).is_alive,
            r is Ok,
            final(ctx).queued() == old(ctx).queued() + seq![SpecNetMessage::SendPacket(
                frame_bytes(0x01, i64_bytes(self.timestamp))), SpecNetMessage::Disconnect],
    {
        let response = PongResponsePacket { timestamp: self.timestamp };
        proof {
            crate::codec::lemma_be_bytes_len((self.timestamp as u64) as nat, 8);
        }
        ctx.send_packet(0x01, response);
        ctx.close();
        proof {
            assert(ctx.queued() =~= old(ctx).queued() + seq![SpecNetMessage::SendPacket(
                frame_bytes(0x01, i64_bytes(self.timestamp))), SpecNetMessage::Disconnect]);
        }
        Ok(())
    }
}

} // verus!
