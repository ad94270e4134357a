//! Play-phase packets: the join payload, position synchronization, the
//! client's movement reports, and keep-alives.
//!
//! Floating-point fields travel as their IEEE-754 bit patterns: the wire
//! carries exactly those bits, so the codec works on the patterns and the
//! host converts at its edge.
use vstd::prelude::*;

use crate::codec::{
    i32_bytes, i64_bytes, parse_i32, parse_u32, parse_u64, parse_varint, read_i32, read_u32,
    read_u64, read_varint, varint_encode, write_i64, DecodeError,
};
use crate::connection::{Connection, ProtocolError};
use crate::data_types::{
    prefixed_array_bytes, Byte, Packet, PacketWrite, UnsignedByte, VarInt,
};
use crate::identifier::{identifier_bytes, Identifier, SpecIdentifier};
use crate::position::Position;
use crate::world::World;

verus! {

use vstd::utf8::{encode_utf8, is_ascii_chars, is_ascii_chars_encode_utf8};

// ---------------------------------------------------------------------------
// Keep-alive.
// ---------------------------------------------------------------------------

/// The keep-alive: a clock value the client must echo to stay connected.
pub struct KeepAliveResponsePacket {
    /// The clock value identifying this keep-alive.
    pub keep_alive_id: i64,
}

impl KeepAliveResponsePacket {
    /// Builds a keep-alive around the current wall-clock milliseconds,
    /// which the host reads and passes in.
    pub fn new(now_millis: i64) -> (r: Self)
        ensures
            r.keep_alive_id == now_millis,
    {
        KeepAliveResponsePacket { keep_alive_id: now_millis }
    }
}

impl PacketWrite for KeepAliveResponsePacket {
    open spec fn encoded(&self) -> Seq<u8> {
        i64_bytes(self.keep_alive_id)
    }

    open spec fn writable(&self) -> bool {
        true
    }

    fn write_to(&self, buf: &mut Vec<u8>) {
        write_i64(self.keep_alive_id, buf);
    }
}

// ---------------------------------------------------------------------------
// Client reports with no server effect.
// ---------------------------------------------------------------------------

/// The teleport confirmation: the id of the teleport being acknowledged.
pub struct TeleportConfirmationRequestPacket {
    /// The confirmed teleport id.
    pub teleport_id: VarInt,
}

impl View for TeleportConfirmationRequestPacket {
    type V = i32;

    open spec fn view(&self) -> i32 {
        self.teleport_id.0
    }
}

impl Packet for TeleportConfirmationRequestPacket {
    open spec fn parse(data: Seq<u8>, pos: int) -> Result<(i32, int), DecodeError> {
        match parse_varint(data, pos) {
            Err(e) => Err(e),
            Ok((v, end)) => Ok((v as i32, end)),
        }
    }

    open spec fn wf(&self) -> bool {
        true
    }

    fn decode(data: &[u8], pos: usize) -> (r: Result<(Self, usize), DecodeError>) {
        match read_varint(data, pos) {
            Ok((v, end)) => {
                proof {
                    assert((v as u32) as i32 == v) by (bit_vector);
                }
                Ok((TeleportConfirmationRequestPacket { teleport_id: VarInt(v) }, end))
            }
            Err(e) => Err(e),
        }
    }
}

impl TeleportConfirmationRequestPacket {
    /// Accepts the confirmation; nothing changes.
    pub fn handle(&self, ctx: &mut Connection, world: &mut World) -> (r: Result<(), ProtocolError>)
        ensures
            *final(world) == *old(world),
            *final(ctx) == *old(ctx),
            r is Ok,
    {
        Ok(())
    }
}

/// Mathematical value of a movement report.
pub ghost struct SpecSetPlayerPositionAndRotationRequestPacket {
    /// Bit pattern of the x coordinate.
    pub x: u64,
    /// Bit pattern of the feet-level y coordinate.
    pub feet_y: u64,
    /// Bit pattern of the z coordinate.
    pub z: u64,
    /// Bit pattern of the yaw angle.
    pub yaw: u32,
    /// Bit pattern of the pitch angle.
    pub pitch: u32,
    /// Movement flags.
    pub flags: i32,
}

/// The client's movement report: a position, a look direction, and flags.
/// The coordinates and angles are carried as IEEE-754 bit patterns.
pub struct SetPlayerPositionAndRotationRequestPacket {
    /// Bit pattern of the x coordinate.
    pub x: u64,
    /// Bit pattern of the feet-level y coordinate.
    pub feet_y: u64,
    /// Bit pattern of the z coordinate.
    pub z: u64,
    /// Bit pattern of the yaw angle.
    pub yaw: u32,
    /// Bit pattern of the pitch angle.
    pub pitch: u32,
    /// Movement flags.
    pub flags: i32,
}

impl View for SetPlayerPositionAndRotationRequestPacket {
    type V = SpecSetPlayerPositionAndRotationRequestPacket;

    open spec fn view(&self) -> SpecSetPlayerPositionAndRotationRequestPacket {
        SpecSetPlayerPositionAndRotationRequestPacket {
            x: self.x,
            feet_y: self.feet_y,
            z: self.z,
            yaw: self.yaw,
            pitch: self.pitch,
            flags: self.flags,
        }
    }
}

/// Parse of a movement report: three doubles, two floats, and an int, all
/// as raw big-endian patterns.
pub open spec fn parse_position_and_rotation(data: Seq<u8>, pos: int) -> Result<
    (SpecSetPlayerPositionAndRotationRequestPacket, int),
    DecodeError,
> {
    match parse_u64(data, pos) {
        Err(e) => Err(e),
        Ok((x, p1)) => match parse_u64(data, p1) {
            Err(e) => Err(e),
            Ok((feet_y, p2)) => match parse_u64(data, p2) {
                Err(e) => Err(e),
                Ok((z, p3)) => match parse_u32(data, p3) {
                    Err(e) => Err(e),
                    Ok((yaw, p4)) => match parse_u32(data, p4) {
                        Err(e) => Err(e),
                        Ok((pitch, p5)) => match parse_i32(data, p5) {
                            Err(e) => Err(e),
                            Ok((flags, p6)) => Ok((
                                SpecSetPlayerPositionAndRotationRequestPacket {
                                    x, feet_y, z, yaw, pitch, flags,
                                },
                                p6,
                            )),
                        },
                    },
                },
            },
        },
    }
}

impl Packet for SetPlayerPositionAndRotationRequestPacket {
    open spec fn parse(data: Seq<u8>, pos: int) -> Result<
        (SpecSetPlayerPositionAndRotationRequestPacket, int),
        DecodeError,
    > {
        parse_position_and_rotation(data, pos)
    }

    open spec fn wf(&self) -> bool {
        true
    }

    fn decode(data: &[u8], pos: usize) -> (r: Result<(Self, usize), DecodeError>) {
        let (x, p1) = match read_u64(data, pos) {
            Ok(v) => v,
            Err(e) => {
                return Err(e);
            }
        };
        let (feet_y, p2) = match read_u64(data, p1) {
            Ok(v) => v,
            Err(e) => {
                return Err(e);
            }
        };
        let (z, p3) = match read_u64(data, p2) {
            Ok(v) => v,
            Err(e) => {
                return Err(e);
            }
        };
        let (yaw, p4) = match read_u32(data, p3) {
            Ok(v) => v,
            Err(e) => {
                return Err(e);
            }
        };
        let (pitch, p5) = match read_u32(data, p4) {
            Ok(v) => v,
            Err(e) => {
                return Err(e);
            }
        };
        let (flags, p6) = match read_i32(data, p5) {
            Ok(v) => v,
            Err(e) => {
                return Err(e);
            }
        };
        Ok((SetPlayerPositionAndRotationRequestPacket { x, feet_y, z, yaw, pitch, flags }, p6))
    }
}

impl SetPlayerPositionAndRotationRequestPacket {
    /// Accepts the report; this server does not track movement.
    pub fn handle(&self, ctx: &mut Connection, world: &mut World) -> (r: Result<(), ProtocolError>)
        ensures
            *final(world) == *old(world),
            *final(ctx) == *old(ctx),
            r is Ok,
    {
        Ok(())
    }
}

/// The client's tick-end report: an empty body.
pub struct ClientTickEndRequestPacket {}

impl View for ClientTickEndRequestPacket {
    type V = ();

    open spec fn view(&self) -> () {
        ()
    }
}

impl Packet for ClientTickEndRequestPacket {
    open spec fn parse(data: Seq<u8>, pos: int) -> Result<((), int), DecodeError> {
        Ok(((), pos))
    }

    open spec fn wf(&self) -> bool {
        true
    }

    fn decode(data: &[u8], pos: usize) -> (r: Result<(Self, usize), DecodeError>) {
        Ok((ClientTickEndRequestPacket {}, pos))
    }
}

impl ClientTickEndRequestPacket {
    /// Accepts the report; nothing changes.
    pub fn handle(&self, ctx: &mut Connection, world: &mut World) -> (r: Result<(), ProtocolError>)
        ensures
            *final(world) == *old(world),
            *final(ctx) == *old(ctx),
            r is Ok,
    {
        Ok(())
    }
}

// ---------------------------------------------------------------------------
// Position synchronization.
// ---------------------------------------------------------------------------

/// The position synchronization: a teleport id, a position and velocity,
/// a look direction, and relative-movement flags.  The coordinates, the
/// velocity, and the angles are carried as IEEE-754 bit patterns.
pub struct SynchronizePlayerPositionResponsePacket {
    /// The teleport id the client must confirm.
    pub teleport_id: VarInt,
    /// Bit pattern of the x coordinate.
    pub x: u64,
    /// Bit pattern of the y coordinate.
    pub y: u64,
    /// Bit pattern of the z coordinate.
    pub z: u64,
    /// Bit pattern of the x velocity.
    pub velocity_x: u64,
    /// Bit pattern of the y velocity.
    pub velocity_y: u64,
    /// Bit pattern of the z velocity.
    pub velocity_z: u64,
    /// Bit pattern of the yaw angle.
    pub yaw: u32,
    /// Bit pattern of the pitch angle.
    pub pitch: u32,
    /// Relative-movement flags.
    pub flags: i32,
}

impl PacketWrite for SynchronizePlayerPositionResponsePacket {
    open spec fn encoded(&self) -> Seq<u8> {
        varint_encode(self.teleport_id.0 as u32) + crate::codec::u64_bytes(self.x)
            + crate::codec::u64_bytes(self.y) + crate::codec::u64_bytes(self.z)
            + crate::codec::u64_bytes(self.velocity_x) + crate::codec::u64_bytes(self.velocity_y)
            + crate::codec::u64_bytes(self.velocity_z) + crate::codec::u32_bytes(self.yaw)
            + crate::codec::u32_bytes(self.pitch) + i32_bytes(self.flags)
    }

    open spec fn writable(&self) -> bool {
        true
    }

    #[verifier::spinoff_prover]
    fn write_to(&self, buf: &mut Vec<u8>) {
        let ghost o = buf@;
        crate::codec::write_varint(self.teleport_id.0, buf);
        let ghost mut acc: Seq<u8> = varint_encode(self.teleport_id.0 as u32);
        crate::codec::write_u64(self.x, buf);
        proof {
            vstd::seq_lib::lemma_concat_associative(o, acc, crate::codec::u64_bytes(self.x));
            acc = acc + crate::codec::u64_bytes(self.x);
            assert(buf@ == o + acc);
        }
        crate::codec::write_u64(self.y, buf);
        proof {
            vstd::seq_lib::lemma_concat_associative(o, acc, crate::codec::u64_bytes(self.y));
            acc = acc + crate::codec::u64_bytes(self.y);
            assert(buf@ == o + acc);
        }
        crate::codec::write_u64(self.z, buf);
        proof {
            vstd::seq_lib::lemma_concat_associative(o, acc, crate::codec::u64_bytes(self.z));
            acc = acc + crate::codec::u64_bytes(self.z);
            assert(buf@ == o + acc);
        }
        crate::codec::write_u64(self.velocity_x, buf);
        proof {
            vstd::seq_lib::lemma_concat_associative(o, acc, crate::codec::u64_bytes(self.velocity_x));
            acc = acc + crate::codec::u64_bytes(self.velocity_x);
            assert(buf@ == o + acc);
        }
        crate::codec::write_u64(self.velocity_y, buf);
        proof {
            vstd::seq_lib::lemma_concat_associative(o, acc, crate::codec::u64_bytes(self.velocity_y));
            acc = acc + crate::codec::u64_bytes(self.velocity_y);
            assert(buf@ == o + acc);
        }
        crate::codec::write_u64(self.velocity_z, buf);
        proof {
            vstd::seq_lib::lemma_concat_associative(o, acc, crate::codec::u64_bytes(self.velocity_z));
            acc = acc + crate::codec::u64_bytes(self.velocity_z);
            assert(buf@ == o + acc);
        }
        crate::codec::write_u32(self.yaw, buf);
        proof {
            vstd::seq_lib::lemma_concat_associative(o, acc, crate::codec::u32_bytes(self.yaw));
            acc = acc + crate::codec::u32_bytes(self.yaw);
            assert(buf@ == o + acc);
        }
        crate::codec::write_u32(self.pitch, buf);
        proof {
            vstd::seq_lib::lemma_concat_associative(o, acc, crate::codec::u32_bytes(self.pitch));
            acc = acc + crate::codec::u32_bytes(self.pitch);
            assert(buf@ == o + acc);
        }
        crate::codec::write_i32(self.flags, buf);
        proof {
            vstd::seq_lib::lemma_concat_associative(o, acc, i32_bytes(self.flags));
            acc = acc + i32_bytes(self.flags);
            assert(buf@ == o + acc);
        }
        proof {
            assert(acc == self.encoded());
        }
    }
}

/// The payload of the default position synchronization: teleport id zero,
/// everything at the origin and at rest, flags 0x0001.
pub open spec fn sync_position_nullspace_payload() -> Seq<u8> {
    varint_encode(0) + crate::codec::u64_bytes(0) + crate::codec::u64_bytes(0)
        + crate::codec::u64_bytes(0) + crate::codec::u64_bytes(0) + crate::codec::u64_bytes(0)
        + crate::codec::u64_bytes(0) + crate::codec::u32_bytes(0) + crate::codec::u32_bytes(0)
        + i32_bytes(0x0001)
}

impl SynchronizePlayerPositionResponsePacket {
    /// The packet this server sends on join: origin, at rest, teleport id
    /// zero, flags 0x0001.
    pub fn nullspace() -> (r: SynchronizePlayerPositionResponsePacket)
        ensures
            r.encoded() == sync_position_nullspace_payload(),
            r.writable(),
    {
        SynchronizePlayerPositionResponsePacket {
            teleport_id: VarInt(0),
            x: 0,
            y: 0,
            z: 0,
            velocity_x: 0,
            velocity_y: 0,
            velocity_z: 0,
            yaw: 0,
            pitch: 0,
            flags: 0x0001,
        }
    }
}

// ---------------------------------------------------------------------------
// The join payload.
// ---------------------------------------------------------------------------

/// The join payload: everything the client needs to enter the world.
pub struct LoginResponsePacket {
    /// The player's entity id.
    pub entity_id: i32,
    /// Whether the world is hardcore.
    pub is_hardcore: bool,
    /// The dimensions this server exposes.
    pub dimension_names: Vec<Identifier>,
    /// The advertised player capacity.
    pub max_players: VarInt,
    /// The view distance in chunks.
    pub view_distance: VarInt,
    /// The simulation distance in chunks.
    pub simulation_distance: VarInt,
    /// Whether debug info is reduced on the client.
    pub reduced_debug_info: bool,
    /// Whether the respawn screen is shown.
    pub enable_respawn_screen: bool,
    /// Whether crafting is limited to unlocked recipes.
    pub do_limited_crafting: bool,
    /// The dimension type's registry index.
    pub dimension_type: VarInt,
    /// The dimension the player spawns in.
    pub dimension_name: Identifier,
    /// The hashed world seed.
    pub hashed_seed: i64,
    /// The player's game mode.
    pub game_mode: UnsignedByte,
    /// The player's previous game mode.
    pub previous_game_mode: Byte,
    /// Whether the world is a debug world.
    pub is_debug: bool,
    /// Whether the world is superflat.
    pub is_flat: bool,
    /// Whether a death location follows.
    pub has_death_location: bool,
    /// The dimension of the last death, sent only with a death location.
    pub death_dimension_name: Option<Identifier>,
    /// The position of the last death, sent only with a death location.
    pub death_location: Option<Position>,
    /// Ticks before a portal may be used again.
    pub portal_cooldown: VarInt,
    /// The world's sea level.
    pub sea_level: VarInt,
    /// Whether the server enforces secure chat.
    pub enforces_secure_chat: bool,
}

impl PacketWrite for LoginResponsePacket {
    open spec fn encoded(&self) -> Seq<u8> {
        i32_bytes(self.entity_id) + self.is_hardcore.encoded() + prefixed_array_bytes(
            self.dimension_names@) + self.max_players.encoded() + self.view_distance.encoded()
            + self.simulation_distance.encoded() + self.reduced_debug_info.encoded()
            + self.enable_respawn_screen.encoded() + self.do_limited_crafting.encoded()
            + self.dimension_type.encoded() + self.dimension_name.encoded()
            + i64_bytes(self.hashed_seed) + self.game_mode.encoded()
            + self.previous_game_mode.encoded() + self.is_debug.encoded() + self.is_flat.encoded()
            + self.has_death_location.encoded() + (if self.has_death_location {
            self.death_dimension_name.encoded() + self.death_location.encoded()
        } else {
            Seq::empty()
        }) + self.portal_cooldown.encoded() + self.sea_level.encoded()
            + self.enforces_secure_chat.encoded()
    }

    open spec fn writable(&self) -> bool {
        &&& self.dimension_names@.len() <= 0x7fff_ffff
        &&& forall|i: int| 0 <= i < self.dimension_names@.len() ==> (#[trigger]
            self.dimension_names@[i]).writable()
        &&& self.dimension_name.writable()
        &&& self.death_dimension_name.writable()
    }

    #[verifier::spinoff_prover]
    #[verifier::rlimit(100)]
    fn write_to(&self, buf: &mut Vec<u8>) {
        let ghost o = buf@;
        crate::codec::write_i32(self.entity_id, buf);
        let ghost mut acc: Seq<u8> = i32_bytes(self.entity_id);
        self.is_hardcore.write_to(buf);
        proof {
            vstd::seq_lib::lemma_concat_associative(o, acc, self.is_hardcore.encoded());
            acc = acc + self.is_hardcore.encoded();
            assert(buf@ == o + acc);
        }
        crate::data_types::write_prefixed_array(&self.dimension_names, buf);
        proof {
            vstd::seq_lib::lemma_concat_associative(o, acc, prefixed_array_bytes(self.dimension_names@));
            acc = acc + prefixed_array_bytes(self.dimension_names@);
            assert(buf@ == o + acc);
        }
        self.max_players.write_to(buf);
        proof {
            vstd::seq_lib::lemma_concat_associative(o, acc, self.max_players.encoded());
            acc = acc + self.max_players.encoded();
            assert(buf@ == o + acc);
        }
        self.view_distance.write_to(buf);
        proof {
            vstd::seq_lib::lemma_concat_associative(o, acc, self.view_distance.encoded());
            acc = acc + self.view_distance.encoded();
            assert(buf@ == o + acc);
        }
        self.simulation_distance.write_to(buf);
        proof {
            vstd::seq_lib::lemma_concat_associative(o, acc, self.simulation_distance.encoded());
            acc = acc + self.simulation_distance.encoded();
            assert(buf@ == o + acc);
        }
        self.reduced_debug_info.write_to(buf);
        proof {
            vstd::seq_lib::lemma_concat_associative(o, acc, self.reduced_debug_info.encoded());
            acc = acc + self.reduced_debug_info.encoded();
            assert(buf@ == o + acc);
        }
        self.enable_respawn_screen.write_to(buf);
        proof {
            vstd::seq_lib::lemma_concat_associative(o, acc, self.enable_respawn_screen.encoded());
            acc = acc + self.enable_respawn_screen.encoded();
            assert(buf@ == o + acc);
        }
        self.do_limited_crafting.write_to(buf);
        proof {
            vstd::seq_lib::lemma_concat_associative(o, acc, self.do_limited_crafting.encoded());
            acc = acc + self.do_limited_crafting.encoded();
            assert(buf@ == o + acc);
        }
        self.dimension_type.write_to(buf);
        proof {
            vstd::seq_lib::lemma_concat_associative(o, acc, self.dimension_type.encoded());
            acc = acc + self.dimension_type.encoded();
            assert(buf@ == o + acc);
        }
        self.dimension_name.write_to(buf);
        proof {
            vstd::seq_lib::lemma_concat_associative(o, acc, self.dimension_name.encoded());
            acc = acc + self.dimension_name.encoded();
            assert(buf@ == o + acc);
        }
        crate::codec::write_i64(self.hashed_seed, buf);
        proof {
            vstd::seq_lib::lemma_concat_associative(o, acc, i64_bytes(self.hashed_seed));
            acc = acc + i64_bytes(self.hashed_seed);
            assert(buf@ == o + acc);
        }
        self.game_mode.write_to(buf);
        proof {
            vstd::seq_lib::lemma_concat_associative(o, acc, self.game_mode.encoded());
            acc = acc + self.game_mode.encoded();
            assert(buf@ == o + acc);
        }
        self.previous_game_mode.write_to(buf);
        proof {
            vstd::seq_lib::lemma_concat_associative(o, acc, self.previous_game_mode.encoded());
            acc = acc + self.previous_game_mode.encoded();
            assert(buf@ == o + acc);
        }
        self.is_debug.write_to(buf);
        proof {
            vstd::seq_lib::lemma_concat_associative(o, acc, self.is_debug.encoded());
            acc = acc + self.is_debug.encoded();
            assert(buf@ == o + acc);
        }
        self.is_flat.write_to(buf);
        proof {
            vstd::seq_lib::lemma_concat_associative(o, acc, self.is_flat.encoded());
            acc = acc + self.is_flat.encoded();
            assert(buf@ == o + acc);
        }
        self.has_death_location.write_to(buf);
        proof {
            vstd::seq_lib::lemma_concat_associative(o, acc, self.has_death_location.encoded());
            acc = acc + self.has_death_location.encoded();
            assert(buf@ == o + acc);
        }
        if self.has_death_location {
            self.death_dimension_name.write_to(buf);
            proof {
                vstd::seq_lib::lemma_concat_associative(o, acc, self.death_dimension_name.encoded());
            }
            self.death_location.write_to(buf);
            proof {
                vstd::seq_lib::lemma_concat_associative(o, acc + self.death_dimension_name.encoded(), self.death_location.encoded());
                vstd::seq_lib::lemma_concat_associative(acc, self.death_dimension_name.encoded(), self.death_location.encoded());
                acc = acc + (self.death_dimension_name.encoded() + self.death_location.encoded());
                assert(buf@ == o + acc);
            }
        } else {
            proof {
                assert(acc + Seq::<u8>::empty() =~= acc);
                acc = acc + Seq::<u8>::empty();
                assert(buf@ == o + acc);
            }
        }
        self.portal_cooldown.write_to(buf);
        proof {
            vstd::seq_lib::lemma_concat_associative(o, acc, self.portal_cooldown.encoded());
            acc = acc + self.portal_cooldown.encoded();
            assert(buf@ == o + acc);
        }
        self.sea_level.write_to(buf);
        proof {
            vstd::seq_lib::lemma_concat_associative(o, acc, self.sea_level.encoded());
            acc = acc + self.sea_level.encoded();
            assert(buf@ == o + acc);
        }
        self.enforces_secure_chat.write_to(buf);
        proof {
            vstd::seq_lib::lemma_concat_associative(o, acc, self.enforces_secure_chat.encoded());
            acc = acc + self.enforces_secure_chat.encoded();
            assert(buf@ == o + acc);
        }
        proof {
            assert(acc == self.encoded());
        }
    }
}

/// The `minecraft:overworld` identifier.
pub open spec fn overworld_ident() -> SpecIdentifier {
    SpecIdentifier { namespace: "minecraft"@, value: "overworld"@ }
}

/// The payload of the default join packet: entity id 2, one overworld
/// dimension, capacity 1000, view and simulation distance 10, survival
/// game mode, sea level 64, secure chat enforced, no death location.
pub open spec fn login_nullspace_payload() -> Seq<u8> {
    i32_bytes(2) + seq![0u8] + varint_encode(1) + identifier_bytes(overworld_ident())
        + varint_encode(1000) + varint_encode(10) + varint_encode(10) + seq![0u8] + seq![1u8]
        + seq![0u8] + varint_encode(0) + identifier_bytes(overworld_ident()) + i64_bytes(0)
        + seq![1u8] + seq![0u8] + seq![0u8] + seq![0u8] + seq![0u8] + varint_encode(0)
        + varint_encode(64) + seq![1u8]
}

impl LoginResponsePacket {
    /// The join payload this server always sends.
    pub fn nullspace() -> (r: LoginResponsePacket)
        ensures
            r.encoded() == login_nullspace_payload(),
            r.writable(),
    {
        let mut dimension_names: Vec<Identifier> = Vec::new();
        dimension_names.push(Identifier::new("minecraft", "overworld"));
        let r = LoginResponsePacket {
            entity_id: 2,
            is_hardcore: false,
            dimension_names,
            max_players: VarInt(1000),
            view_distance: VarInt(10),
            simulation_distance: VarInt(10),
            reduced_debug_info: false,
            enable_respawn_screen: true,
            do_limited_crafting: false,
            dimension_type: VarInt(0),
            dimension_name: Identifier::new("minecraft", "overworld"),
            hashed_seed: 0,
            game_mode: UnsignedByte(1),
            previous_game_mode: Byte(0),
            is_debug: false,
            is_flat: false,
            has_death_location: false,
            death_dimension_name: None,
            death_location: None,
            portal_cooldown: VarInt(0),
            sea_level: VarInt(64),
            enforces_secure_chat: true,
        };
        proof {
            lemma_overworld_ascii();
            assert(r.dimension_names@.drop_last() =~= Seq::<Identifier>::empty());
            assert(crate::data_types::array_body(Seq::<Identifier>::empty())
                == Seq::<u8>::empty());
            assert(crate::data_types::array_body(r.dimension_names@) == crate::data_types::array_body(
                r.dimension_names@.drop_last()) + r.dimension_names@.last().encoded());
            assert(crate::data_types::array_body(r.dimension_names@)
                =~= r.dimension_names@.last().encoded());
            assert(prefixed_array_bytes(r.dimension_names@) =~= varint_encode(1)
                + identifier_bytes(overworld_ident()));
            assert(r.encoded() =~= login_nullspace_payload());
        }
        r
    }
}

/// The characters of `minecraft` and `overworld` are ASCII, so their UTF-8
/// byte counts equal their lengths.
pub proof fn lemma_overworld_ascii()
    ensures
        encode_utf8("minecraft"@).len() == 9,
        encode_utf8("overworld"@).len() == 9,
{
    reveal_strlit("minecraft");
    reveal_strlit("overworld");
    assert(is_ascii_chars("minecraft"@));
    assert(is_ascii_chars("overworld"@));
    is_ascii_chars_encode_utf8("minecraft"@);
    is_ascii_chars_encode_utf8("overworld"@);
}

} // verus!

verus! {

/// The fixed join and synchronization payloads are small.
pub proof fn lemma_login_payload_lens()
    ensures
        login_nullspace_payload().len() <= 120,
        sync_position_nullspace_payload().len() <= 70,
{
    lemma_overworld_ascii();
    crate::codec::lemma_varint_encode_len(1000);
    crate::codec::lemma_be_bytes_len(2, 4);
    crate::codec::lemma_be_bytes_len(0, 8);
    crate::codec::lemma_be_bytes_len(0, 4);
    crate::codec::lemma_be_bytes_len(1, 4);
}

} // verus!
