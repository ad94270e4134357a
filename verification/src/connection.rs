//! Per-client connection state: the protocol phase, the liveness flag, and
//! the queue of outbound messages that a dedicated writer drains in order.
use vstd::prelude::*;

use crate::codec::{parse_varint, push_bytes, read_varint, varint_encode, write_varint, DecodeError};
use crate::data_types::PacketWrite;

verus! {

/// The protocol stage a connection is in; it gates which opcodes are valid.
#[derive(Debug, Clone, Copy, PartialEq, Eq, Hash, Structural)]
pub enum ConnectionPhase {
    /// The initial stage: only the handshake is valid.
    Handshaking,
    /// Server-list query: status request and ping.
    Status,
    /// Authentication: login start and acknowledge.
    Login,
    /// Feature and registry negotiation.
    Configuration,
    /// The long-lived gameplay stage.
    Play,
}

/// A message for the connection's writer: bytes to put on the wire, or an
/// order to shut the socket down.
pub enum NetMessage {
    /// One complete frame, written with a single write.
    SendPacket(Vec<u8>),
    /// Shut the outbound half down and stop.
    Disconnect,
}

/// Mathematical value of an outbound message.
pub ghost enum SpecNetMessage {
    /// One complete frame's bytes.
    SendPacket(Seq<u8>),
    /// The shutdown order.
    Disconnect,
}

impl View for NetMessage {
    type V = SpecNetMessage;

    open spec fn view(&self) -> SpecNetMessage {
        match self {
            NetMessage::SendPacket(data) => SpecNetMessage::SendPacket(data@),
            NetMessage::Disconnect => SpecNetMessage::Disconnect,
        }
    }
}

/// Why a connection must be torn down.
#[derive(Debug, Clone, Copy, PartialEq, Eq, Structural)]
pub enum ProtocolError {
    /// A frame's bytes could not be decoded.
    Decode(DecodeError),
    /// The client's protocol version is not the one this server speaks.
    VersionMismatch,
    /// A handshake asked for a next state other than status or login.
    InvalidIntent,
    /// The client announced a brand other than `vanilla` while the server
    /// is configured to reject modded clients.
    ModdedClient,
}

/// One frame on the wire: a VarInt body length, a VarInt opcode, then the
/// opcode's payload.
pub open spec fn frame_bytes(opcode: i32, body: Seq<u8>) -> Seq<u8> {
    let payload = varint_encode(opcode as u32) + body;
    varint_encode(payload.len() as u32) + payload
}

/// Parse of one frame at `pos`: the body bytes after the length prefix.
pub open spec fn parse_frame(data: Seq<u8>, pos: int) -> Result<(Seq<u8>, int), DecodeError> {
    match parse_varint(data, pos) {
        Err(e) => Err(e),
        Ok((len_u, p)) => {
            let len = len_u as i32;
            if len < 0 {
                Err(DecodeError::InvalidLength)
            } else if p + len > data.len() {
                Err(DecodeError::UnexpectedEof)
            } else {
                Ok((data.subrange(p, p + len), p + len))
            }
        }
    }
}

/// Reads one length-prefixed frame body out of a byte buffer.
pub fn read_frame(data: &[u8], pos: usize) -> (r: Result<(Vec<u8>, usize), DecodeError>)
    requires
        pos <= data@.len(),
    ensures
        match r {
            Ok((body, end)) => {
                &&& parse_frame(data@, pos as int) == Ok::<(Seq<u8>, int), DecodeError>((body@, end as int))
                &&& pos < end <= data@.len()
            },
            Err(e) => parse_frame(data@, pos as int) == Err::<(Seq<u8>, int), DecodeError>(e),
        },
{
    let (len_v, p) = match read_varint(data, pos) {
        Ok(x) => x,
        Err(e) => {
            return Err(e);
        }
    };
    proof {
        assert((len_v as u32) as i32 == len_v) by (bit_vector);
    }
    if len_v < 0 {
        return Err(DecodeError::InvalidLength);
    }
    let len = len_v as usize;
    if data.len() - p < len {
        return Err(DecodeError::UnexpectedEof);
    }
    let body = vstd::slice::slice_to_vec(vstd::slice::slice_subrange(data, p, p + len));
    Ok((body, p + len))
}

/// Incremental VarInt reader for a byte stream: feed one byte at a time
/// until a value or an error comes out.
pub struct VarIntDecoder {
    /// The continuation bytes seen so far.
    pub buf: Vec<u8>,
}

impl VarIntDecoder {
    /// The bytes fed so far.
    pub open spec fn fed(&self) -> Seq<u8> {
        self.buf@
    }

    /// Starts a fresh decoder.
    pub fn new() -> (r: Self)
        ensures
            r.fed() == Seq::<u8>::empty(),
            parse_varint(r.fed(), 0) == Err::<(u32, int), DecodeError>(DecodeError::UnexpectedEof),
    {
        VarIntDecoder { buf: Vec::new() }
    }

    /// Feeds one byte.  `None` asks for more input; otherwise the bytes fed
    /// so far decide the value or the error, exactly as a whole-buffer
    /// parse of them would.
    pub fn feed(&mut self, b: u8) -> (r: Option<Result<i32, DecodeError>>)
        requires
            parse_varint(old(self).fed(), 0) == Err::<(u32, int), DecodeError>(
                DecodeError::UnexpectedEof),
        ensures
            final(self).fed() == old(self).fed() + seq![b],
            match r {
                None => parse_varint(final(self).fed(), 0) == Err::<(u32, int), DecodeError>(
                    DecodeError::UnexpectedEof),
                Some(Ok(v)) => parse_varint(final(self).fed(), 0) == Ok::<(u32, int), DecodeError>(
                    (v as u32, final(self).fed().len() as int)),
                Some(Err(e)) => parse_varint(final(self).fed(), 0) == Err::<(u32, int), DecodeError>(e)
                    && e != DecodeError::UnexpectedEof,
            },
    {
        let ghost before = self.buf@;
        self.buf.push(b);
        proof {
            assert(self.buf@ =~= before + seq![b]);
            lemma_varint_needs_last_byte(before, b, 0);
        }
        match read_varint(self.buf.as_slice(), 0) {
            Ok((v, end)) => {
                if end == self.buf.len() {
                    Some(Ok(v))
                } else {
                    // Impossible: every byte fed before this one had its
                    // continuation bit set, so a parse cannot end early.
                    proof {
                        assert(false);
                    }
                    Some(Err(DecodeError::VarIntTooLarge))
                }
            }
            Err(DecodeError::UnexpectedEof) => None,
            Err(e) => Some(Err(e)),
        }
    }
}

/// When a parse of `s` still asks for more input, a parse of `s` plus one
/// byte that succeeds consumes everything.
proof fn lemma_varint_needs_last_byte(s: Seq<u8>, b: u8, idx: nat)
    requires
        idx <= 5,
        idx <= s.len(),
        crate::codec::parse_varint_at(s, 0, idx) == Err::<(nat, int), DecodeError>(
            DecodeError::UnexpectedEof),
    ensures
        match crate::codec::parse_varint_at(s + seq![b], 0, idx) {
            Ok((v, end)) => end == s.len() + 1,
            Err(e) => true,
        },
    decreases 5 - idx,
{
    let s2 = s + seq![b];
    if idx >= 5 {
    } else if idx >= s.len() {
        assert(s2[idx as int] == b);
        reveal_with_fuel(crate::codec::parse_varint_at, 3);
    } else {
        assert(s2[idx as int] == s[idx as int]);
        lemma_varint_needs_last_byte(s, b, idx + 1);
    }
}

/// Per-client session state.  The inbound socket and the writer task live
/// with the host; handlers mutate the phase and append to `outbound`, and
/// the host drains `outbound` to the writer in order.
pub struct Connection {
    /// The current protocol stage.
    pub phase: ConnectionPhase,
    /// False once the connection has been closed.
    pub is_alive: bool,
    /// Outbound messages in the order they must reach the wire.
    pub outbound: Vec<NetMessage>,
}

impl Connection {
    /// The outbound queue's mathematical value, in wire order.
    pub open spec fn queued(&self) -> Seq<SpecNetMessage> {
        self.outbound@.map_values(|m: NetMessage| m@)
    }

    /// A fresh connection in the given phase, alive, with nothing queued.
    pub fn new(phase: ConnectionPhase) -> (r: Connection)
        ensures
            r.phase == phase,
            r.is_alive,
            r.queued() == Seq::<SpecNetMessage>::empty(),
    {
        let r = Connection { phase, is_alive: true, outbound: Vec::new() };
        proof {
            assert(r.queued() =~= Seq::<SpecNetMessage>::empty());
        }
        r
    }

    /// Frames a raw body under an opcode and queues it: one new message,
    /// after everything queued before it.
    pub fn send_raw_packet(&mut self, packet_id: i32, body: &[u8])
        requires
            body@.len() + 5 <= 0x7fff_ffff,
        ensures
            final(self).phase == old(self).phase,
            final(self).is_alive == old(self).is_alive,
            final(self).queued() == old(self).queued() + seq![
                SpecNetMessage::SendPacket(frame_bytes(packet_id, body@))],
    {
        let mut payload: Vec<u8> = Vec::new();
        write_varint(packet_id, &mut payload);
        proof {
            crate::codec::lemma_varint_encode_len(packet_id as u32);
        }
        push_bytes(&mut payload, body);
        let mut framed: Vec<u8> = Vec::new();
        let n = payload.len();
        write_varint(n as i32, &mut framed);
        proof {
            assert((n as u32) == (n as i32) as u32) by (bit_vector)
                requires n <= 0x7fff_ffff;
        }
        push_bytes(&mut framed, payload.as_slice());
        proof {
            assert(framed@ =~= frame_bytes(packet_id, body@));
        }
        let ghost before = self.outbound@;
        self.outbound.push(NetMessage::SendPacket(framed));
        proof {
            assert(self.queued() =~= before.map_values(|m: NetMessage| m@) + seq![
                SpecNetMessage::SendPacket(frame_bytes(packet_id, body@))]);
        }
    }

    /// Serializes a packet and queues its frame under the given opcode.
    pub fn send_packet<T: PacketWrite>(&mut self, id: i32, packet: T)
        requires
            packet.writable(),
            packet.encoded().len() + 5 <= 0x7fff_ffff,
        ensures
            final(self).phase == old(self).phase,
            final(self).is_alive == old(self).is_alive,
            final(self).queued() == old(self).queued() + seq![
                SpecNetMessage::SendPacket(frame_bytes(id, packet.encoded()))],
    {
        let mut body: Vec<u8> = Vec::new();
        packet.write_to(&mut body);
        self.send_raw_packet(id, body.as_slice());
    }

    /// Marks the connection closed and queues the shutdown order for the
    /// writer; repeating it only queues the order again.
    pub fn close(&mut self)
        ensures
            final(self).phase == old(self).phase,
            !final(self).is_alive,
            final(self).queued() == old(self).queued() + seq![SpecNetMessage::Disconnect],
    {
        self.is_alive = false;
        let ghost before = self.outbound@;
        self.outbound.push(NetMessage::Disconnect);
        proof {
            assert(self.queued() =~= before.map_values(|m: NetMessage| m@) + seq![
                SpecNetMessage::Disconnect]);
        }
    }
}

/// Law: the outbound queue is first-in first-out, so frames queued in the
/// order a, b, c stand in the queue in exactly that order, after all
/// earlier traffic and regardless of what other queues receive.
pub proof fn lemma_send_order(q0: Seq<SpecNetMessage>, a: Seq<u8>, b: Seq<u8>, c: Seq<u8>)
    ensures
        ((q0 + seq![SpecNetMessage::SendPacket(a)]) + seq![SpecNetMessage::SendPacket(b)]) + seq![
            SpecNetMessage::SendPacket(c)] == q0 + seq![SpecNetMessage::SendPacket(a),
            SpecNetMessage::SendPacket(b), SpecNetMessage::SendPacket(c)],
{
    assert(((q0 + seq![SpecNetMessage::SendPacket(a)]) + seq![SpecNetMessage::SendPacket(b)])
        + seq![SpecNetMessage::SendPacket(c)] =~= q0 + seq![SpecNetMessage::SendPacket(a),
        SpecNetMessage::SendPacket(b), SpecNetMessage::SendPacket(c)]);
}

} // verus!

verus! {

use crate::codec::{lemma_split_concat, lemma_varint_encode_len, lemma_varint_round_trip};

/// Round trip: a frame built from an opcode and a payload, placed at
/// `pos`, reads back as exactly one frame whose body starts with that
/// opcode and carries that payload.
pub proof fn lemma_frame_round_trip(data: Seq<u8>, pos: int, opcode: i32, body: Seq<u8>)
    requires
        0 <= pos,
        body.len() + 5 <= 0x7fff_ffff,
        pos + frame_bytes(opcode, body).len() <= data.len(),
        data.subrange(pos, pos + frame_bytes(opcode, body).len() as int) == frame_bytes(opcode, body),
    ensures
        ({
            let payload = varint_encode(opcode as u32) + body;
            parse_frame(data, pos) == Ok::<(Seq<u8>, int), DecodeError>((
                payload,
                pos + frame_bytes(opcode, body).len(),
            )) && parse_varint(payload, 0) == Ok::<(u32, int), DecodeError>((
                opcode as u32,
                varint_encode(opcode as u32).len() as int,
            ))
        }),
{
    let enc = varint_encode(opcode as u32);
    lemma_varint_encode_len(opcode as u32);
    let payload = enc + body;
    let n = payload.len() as u32;
    let prefix = varint_encode(n);
    lemma_split_concat(data, pos, prefix, payload);
    lemma_varint_round_trip(data, pos, n);
    assert((n as i32) as int == n as int) by (bit_vector)
        requires n < 0x8000_0000;
    assert(payload.subrange(0, payload.len() as int) =~= payload);
    lemma_split_concat(payload, 0, enc, body);
    lemma_varint_round_trip(payload, 0, opcode as u32);
}

} // verus!
