//! Login-phase packets: the login start, its success response, and the
//! acknowledge that moves the connection into configuration.
use vstd::prelude::*;

use crate::codec::{parse_string, parse_u128, read_string, read_uuid, string_encoding, u128_bytes, varint_encode, DecodeError};
use crate::connection::{frame_bytes, Connection, ConnectionPhase, ProtocolError, SpecNetMessage};
use crate::data_types::{GameProfile, GameProfileProperty, Packet, PacketWrite};
use crate::world::{upsert_player, Player, SpecPlayer, World};

verus! {

use vstd::utf8::encode_utf8;

/// Mathematical value of a login start.
pub ghost struct SpecLoginStartRequestPacket {
    /// The player's name characters.
    pub name: Seq<char>,
    /// The player's UUID.
    pub player_uuid: u128,
}

/// The login start: the name and UUID the client logs in under.
pub struct LoginStartRequestPacket {
    /// The player's name.
    pub name: String,
    /// The player's UUID.
    pub player_uuid: u128,
}

impl View for LoginStartRequestPacket {
    type V = SpecLoginStartRequestPacket;

    open spec fn view(&self) -> SpecLoginStartRequestPacket {
        SpecLoginStartRequestPacket { name: self.name@, player_uuid: self.player_uuid }
    }
}

/// Parse of a login start body: name, then UUID.
pub open spec fn parse_login_start(data: Seq<u8>, pos: int) -> Result<(SpecLoginStartRequestPacket, int), DecodeError> {
    match parse_string(data, pos) {
        Err(e) => Err(e),
        Ok((name, p1)) => match parse_u128(data, p1) {
            Err(e) => Err(e),
            Ok((player_uuid, p2)) => Ok((SpecLoginStartRequestPacket { name, player_uuid }, p2)),
        },
    }
}

impl Packet for LoginStartRequestPacket {
    open spec fn parse(data: Seq<u8>, pos: int) -> Result<(SpecLoginStartRequestPacket, int), DecodeError> {
        parse_login_start(data, pos)
    }

    open spec fn wf(&self) -> bool {
        encode_utf8(self.name@).len() <= 32767
    }

    fn decode(data: &[u8], pos: usize) -> (r: Result<(Self, usize), DecodeError>) {
        let (name, p1) = match read_string(data, pos) {
            Ok(x) => x,
            Err(e) => {
                return Err(e);
            }
        };
        let (player_uuid, p2) = match read_uuid(data, p1) {
            Ok(x) => x,
            Err(e) => {
                return Err(e);
            }
        };
        Ok((LoginStartRequestPacket { name, player_uuid }, p2))
    }
}

/// The login success: the accepted profile echoed back to the client.
pub struct LoginSuccessResponsePacket {
    /// The profile the server accepted.
    pub profile: GameProfile,
}

impl LoginSuccessResponsePacket {
    /// Builds the response around a profile.
    pub fn new(uuid: u128, username: String, properties: Vec<GameProfileProperty>) -> (r: Self)
        ensures
            r.profile.uuid == uuid,
            r.profile.username@ == username@,
            r.profile.properties@ == properties@,
    {
        LoginSuccessResponsePacket { profile: GameProfile { uuid, username, properties } }
    }
}

impl PacketWrite for LoginSuccessResponsePacket {
    open spec fn encoded(&self) -> Seq<u8> {
        self.profile.encoded()
    }

    open spec fn writable(&self) -> bool {
        self.profile.writable()
    }

    fn write_to(&self, buf: &mut Vec<u8>) {
        self.profile.write_to(buf);
    }
}

/// The body of the login success sent for a given name and UUID: the UUID,
/// the name, and an empty property array.
pub open spec fn login_success_payload(uuid: u128, name: Seq<char>) -> Seq<u8> {
    u128_bytes(uuid) + string_encoding(name) + varint_encode(0)
}

impl LoginStartRequestPacket {
    /// Records the player's session and answers with login success under
    /// opcode 0x02, echoing the same UUID and name.
    pub fn handle(&self, ctx: &mut Connection, world: &mut World) -> (r: Result<(), ProtocolError>)
        requires
            self.wf(),
        ensures
            final(ctx).phase == old(ctx).phase,
            final(ctx).is_alive == old(ctx).is_alive,
            r is Ok,
            final(world).sessions() == upsert_player(old(world).sessions(), SpecPlayer {
                uuid: self.player_uuid, username: self.name@ }),
            final(world).tick_count == old(world).tick_count,
            final(world).status_json == old(world).status_json,
            final(world).registry_files == old(world).registry_files,
            final(ctx).queued() == old(ctx).queued() + seq![SpecNetMessage::SendPacket(
                frame_bytes(0x02, login_success_payload(self.player_uuid, self.name@)))],
    {
        let new_player = Player { uuid: self.player_uuid, username: self.name.clone() };
        world.insert_player(new_player);
        let response = LoginSuccessResponsePacket::new(self.player_uuid, self.name.clone(), Vec::new());
        proof {
            crate::codec::lemma_varint_encode_len(encode_utf8(self.name@).len() as u32);
            crate::codec::lemma_be_bytes_len(self.player_uuid as nat, 16);
            assert(crate::data_types::array_body(response.profile.properties@)
                == Seq::<u8>::empty());
            assert(response.encoded() =~= login_success_payload(self.player_uuid, self.name@));
        }
        ctx.send_packet(0x02, response);
        Ok(())
    }
}

/// The login acknowledge: an empty body moving the connection onward.
pub struct LoginAcknowledgedRequestPacket {}

impl View for LoginAcknowledgedRequestPacket {
    type V = ();

    open spec fn view(&self) -> () {
        ()
    }
}

impl Packet for LoginAcknowledgedRequestPacket {
    open spec fn parse(data: Seq<u8>, pos: int) -> Result<((), int), DecodeError> {
        Ok(((), pos))
    }

    open spec fn wf(&self) -> bool {
        true
    }

    fn decode(data: &[u8], pos: usize) -> (r: Result<(Self, usize), DecodeError>) {
        Ok((LoginAcknowledgedRequestPacket {}, pos))
    }
}

impl LoginAcknowledgedRequestPacket {
    /// Moves the connection into the configuration phase.
    pub fn handle(&self, ctx: &mut Connection, world: &mut World) -> (r: Result<(), ProtocolError>)
        ensures
            *final(world) == *old(world),
            final(ctx).is_alive == old(ctx).is_alive,
            final(ctx).queued() == old(ctx).queued(),
            r is Ok,
            final(ctx).phase == ConnectionPhase::Configuration,
    {
        ctx.phase = ConnectionPhase::Configuration;
        Ok(())
    }
}

} // verus!
