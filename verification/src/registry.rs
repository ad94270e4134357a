//! The packet registry: a build-once table from (phase, opcode) to a
//! decode-and-handle unit, and the dispatch that drives it.
use vstd::prelude::*;

use crate::codec::{parse_string, parse_varint, read_varint, DecodeError};
use crate::connection::{
    frame_bytes, Connection, ConnectionPhase, ProtocolError, SpecNetMessage,
};
use crate::data_types::Packet;
use crate::packets::configuration::{
    brand_ident, feature_flags_payload, known_packs_payload, parse_client_information,
    parse_plugin_message, plugin_brand_payload, AcknowledgeFinishConfigurationRequestPacket,
    ClientInformationRequestPacket, KnownPacksRequestPacket,
    PluginMessageConfigurationRequestPacket,
};
use crate::packets::handshake::{parse_handshake, HandshakePacket, PROTOCOL_VERSION};
use crate::packets::login::{
    login_success_payload, parse_login_start, LoginAcknowledgedRequestPacket,
    LoginStartRequestPacket,
};
use crate::packets::play::{
    login_nullspace_payload, parse_position_and_rotation, sync_position_nullspace_payload,
    ClientTickEndRequestPacket, SetPlayerPositionAndRotationRequestPacket,
    TeleportConfirmationRequestPacket,
};
use crate::packets::status::{PingRequestPacket, StatusRequestPacket};
use crate::world::{registry_frames, upsert_player, SpecPlayer, World};

verus! {

/// The decode-and-handle units this server registers; the registry maps
/// each (phase, opcode) pair to one of them.
#[derive(Debug, Clone, Copy, PartialEq, Eq, Structural)]
pub enum PacketKind {
    /// The handshake.
    Handshake,
    /// The status request.
    StatusRequest,
    /// The ping.
    PingRequest,
    /// The login start.
    LoginStart,
    /// The login acknowledge.
    LoginAcknowledged,
    /// The configuration plugin message.
    PluginMessageConfiguration,
    /// The client's settings.
    ClientInformation,
    /// The client's known packs.
    KnownPacks,
    /// The finish-configuration acknowledge.
    AcknowledgeFinishConfiguration,
    /// The teleport confirmation.
    TeleportConfirmation,
    /// The client's movement report.
    SetPlayerPositionAndRotation,
    /// The client's tick-end report.
    ClientTickEnd,
}

/// One registration: a (phase, opcode) pair and its unit.
#[derive(Debug, Clone, Copy, PartialEq, Eq, Structural)]
pub struct RegistryEntry {
    /// The phase the opcode is valid in.
    pub phase: ConnectionPhase,
    /// The opcode within the phase.
    pub opcode: i32,
    /// The unit that decodes and handles the packet.
    pub kind: PacketKind,
}

/// The mapping a list of registrations builds: the last registration for a
/// pair wins.
pub open spec fn entries_table(s: Seq<RegistryEntry>) -> Map<(ConnectionPhase, int), PacketKind>
    decreases s.len(),
{
    if s.len() == 0 {
        Map::empty()
    } else {
        entries_table(s.drop_last()).insert((s.last().phase, s.last().opcode as int), s.last().kind)
    }
}

/// What a dispatch reported: the frame was handled, or no unit is
/// registered for its (phase, opcode) pair and it was discarded.
#[derive(Debug, Clone, Copy, PartialEq, Eq, Structural)]
pub enum DispatchOutcome {
    /// A unit decoded and handled the frame.
    Handled,
    /// No unit is registered; the frame is discarded and the loop goes on.
    NotFound,
}

/// The dispatch table, built once at startup and read-only afterwards.
pub struct PacketRegistry {
    /// The registrations in the order they were made.
    pub entries: Vec<RegistryEntry>,
}

/// How one handled packet kind transforms the connection and the world.
/// This is the protocol state machine: for each kind it fixes, from the
/// frame bytes alone, the result, the next state, and the queued output.
pub open spec fn kind_step(
    kind: PacketKind,
    data: Seq<u8>,
    pos: int,
    c0: Connection,
    w0: World,
    c1: Connection,
    w1: World,
    r: Result<DispatchOutcome, ProtocolError>,
) -> bool {
    match kind {
        PacketKind::Handshake => match parse_handshake(data, pos) {
            Err(e) => r == Err::<DispatchOutcome, ProtocolError>(ProtocolError::Decode(e)) && c1 == c0 && w1 == w0,
            Ok((p, _)) => {
                &&& w1 == w0
                &&& c1.is_alive == c0.is_alive
                &&& c1.queued() == c0.queued()
                &&& if p.protocol_version != PROTOCOL_VERSION {
                    r == Err::<DispatchOutcome, ProtocolError>(ProtocolError::VersionMismatch) && c1 == c0
                } else if p.next_state == 1 || p.next_state == 2 {
                    r == Ok::<DispatchOutcome, ProtocolError>(DispatchOutcome::Handled)
                        && c1.phase == (if p.next_state == 1 {
                        ConnectionPhase::Status
                    } else {
                        ConnectionPhase::Login
                    })
                } else {
                    r == Err::<DispatchOutcome, ProtocolError>(ProtocolError::InvalidIntent) && c1 == c0
                }
            },
        },
        PacketKind::StatusRequest => {
            &&& w1 == w0
            &&& c1.phase == c0.phase
            &&& c1.is_alive == c0.is_alive
            &&& r == Ok::<DispatchOutcome, ProtocolError>(DispatchOutcome::Handled)
            &&& c1.queued() == c0.queued() + seq![SpecNetMessage::SendPacket(frame_bytes(
                0x00, crate::codec::string_encoding(w0.status_json@)))]
        },
        PacketKind::PingRequest => match crate::codec::parse_i64(data, pos) {
            Err(e) => r == Err::<DispatchOutcome, ProtocolError>(ProtocolError::Decode(e)) && c1 == c0 && w1 == w0,
            Ok((ts, _)) => {
                &&& w1 == w0
                &&& c1.phase == c0.phase
                &&& !c1.is_alive
                &&& r == Ok::<DispatchOutcome, ProtocolError>(DispatchOutcome::Handled)
                &&& c1.queued() == c0.queued() + seq![SpecNetMessage::SendPacket(frame_bytes(
                    0x01, crate::codec::i64_bytes(ts))), SpecNetMessage::Disconnect]
            },
        },
        PacketKind::LoginStart => match parse_login_start(data, pos) {
            Err(e) => r == Err::<DispatchOutcome, ProtocolError>(ProtocolError::Decode(e)) && c1 == c0 && w1 == w0,
            Ok((p, _)) => {
                &&& c1.phase == c0.phase
                &&& c1.is_alive == c0.is_alive
                &&& r == Ok::<DispatchOutcome, ProtocolError>(DispatchOutcome::Handled)
                &&& w1.sessions() == upsert_player(w0.sessions(), SpecPlayer {
                    uuid: p.player_uuid,
                    username: p.name,
                })
                &&& w1.tick_count == w0.tick_count
                &&& w1.status_json == w0.status_json
                &&& w1.registry_files == w0.registry_files
                &&& c1.queued() == c0.queued() + seq![SpecNetMessage::SendPacket(frame_bytes(
                    0x02, login_success_payload(p.player_uuid, p.name)))]
            },
        },
        PacketKind::LoginAcknowledged => {
            &&& w1 == w0
            &&& c1.is_alive == c0.is_alive
            &&& c1.queued() == c0.queued()
            &&& r == Ok::<DispatchOutcome, ProtocolError>(DispatchOutcome::Handled)
            &&& c1.phase == ConnectionPhase::Configuration
        },
        PacketKind::PluginMessageConfiguration => match parse_plugin_message(data, pos) {
            Err(e) => r == Err::<DispatchOutcome, ProtocolError>(ProtocolError::Decode(e)) && c1 == c0 && w1 == w0,
            Ok((p, _)) => {
                &&& w1 == w0
                &&& c1.phase == c0.phase
                &&& c1.is_alive == c0.is_alive
                &&& if p.channel == brand_ident() && parse_string(p.data, 0) is Err {
                    r == Err::<DispatchOutcome, ProtocolError>(ProtocolError::Decode(
                        parse_string(p.data, 0)->Err_0)) && c1 == c0
                } else if p.channel == brand_ident() && !crate::packets::configuration::brand_accepted(
                    w0.reject_modded, parse_string(p.data, 0)->Ok_0.0) {
                    r == Err::<DispatchOutcome, ProtocolError>(ProtocolError::ModdedClient) && c1 == c0
                } else {
                    r == Ok::<DispatchOutcome, ProtocolError>(DispatchOutcome::Handled)
                        && c1.queued() == c0.queued() + seq![
                        SpecNetMessage::SendPacket(frame_bytes(0x01, plugin_brand_payload())),
                        SpecNetMessage::SendPacket(frame_bytes(0x0C, feature_flags_payload())),
                        SpecNetMessage::SendPacket(frame_bytes(0x0E, known_packs_payload()))]
                }
            },
        },
        PacketKind::ClientInformation => match parse_client_information(data, pos) {
            Err(e) => r == Err::<DispatchOutcome, ProtocolError>(ProtocolError::Decode(e)) && c1 == c0 && w1 == w0,
            Ok(_) => r == Ok::<DispatchOutcome, ProtocolError>(DispatchOutcome::Handled) && c1 == c0 && w1 == w0,
        },
        PacketKind::KnownPacks => match crate::data_types::parse_known_packs(data, pos) {
            Err(e) => r == Err::<DispatchOutcome, ProtocolError>(ProtocolError::Decode(e)) && c1 == c0 && w1 == w0,
            Ok(_) => {
                &&& w1 == w0
                &&& c1.phase == c0.phase
                &&& c1.is_alive == c0.is_alive
                &&& r == Ok::<DispatchOutcome, ProtocolError>(DispatchOutcome::Handled)
                &&& c1.queued() == c0.queued() + registry_frames(w0.files()) + seq![
                    SpecNetMessage::SendPacket(frame_bytes(0x03, Seq::empty()))]
            },
        },
        PacketKind::AcknowledgeFinishConfiguration => {
            &&& w1 == w0
            &&& c1.is_alive == c0.is_alive
            &&& r == Ok::<DispatchOutcome, ProtocolError>(DispatchOutcome::Handled)
            &&& c1.phase == ConnectionPhase::Play
            &&& c1.queued() == c0.queued() + seq![
                SpecNetMessage::SendPacket(frame_bytes(0x30, login_nullspace_payload())),
                SpecNetMessage::SendPacket(frame_bytes(0x46, sync_position_nullspace_payload()))]
        },
        PacketKind::TeleportConfirmation => match parse_varint(data, pos) {
            Err(e) => r == Err::<DispatchOutcome, ProtocolError>(ProtocolError::Decode(e)) && c1 == c0 && w1 == w0,
            Ok(_) => r == Ok::<DispatchOutcome, ProtocolError>(DispatchOutcome::Handled) && c1 == c0 && w1 == w0,
        },
        PacketKind::SetPlayerPositionAndRotation => match parse_position_and_rotation(data, pos) {
            Err(e) => r == Err::<DispatchOutcome, ProtocolError>(ProtocolError::Decode(e)) && c1 == c0 && w1 == w0,
            Ok(_) => r == Ok::<DispatchOutcome, ProtocolError>(DispatchOutcome::Handled) && c1 == c0 && w1 == w0,
        },
        PacketKind::ClientTickEnd => r == Ok::<DispatchOutcome, ProtocolError>(DispatchOutcome::Handled) && c1 == c0 && w1 == w0,
    }
}

/// What one dispatch does: an unregistered pair is reported `NotFound` and
/// changes nothing; a registered pair steps the state machine of its kind.
pub open spec fn dispatch_step(
    table: Map<(ConnectionPhase, int), PacketKind>,
    phase: ConnectionPhase,
    id: int,
    data: Seq<u8>,
    pos: int,
    c0: Connection,
    w0: World,
    c1: Connection,
    w1: World,
    r: Result<DispatchOutcome, ProtocolError>,
) -> bool {
    if table.contains_key((phase, id)) {
        kind_step(table[(phase, id)], data, pos, c0, w0, c1, w1, r)
    } else {
        r == Ok::<DispatchOutcome, ProtocolError>(DispatchOutcome::NotFound) && c1 == c0 && w1 == w0
    }
}

proof fn lemma_table_untouched(s: Seq<RegistryEntry>, key: (ConnectionPhase, int), j: int)
    requires
        0 <= j <= s.len(),
        forall|i: int| j <= i < s.len() ==> ((#[trigger] s[i]).phase, s[i].opcode as int) != key,
    ensures
        entries_table(s).contains_key(key) == entries_table(s.take(j)).contains_key(key),
        entries_table(s).contains_key(key) ==> entries_table(s)[key] == entries_table(s.take(j))[key],
    decreases s.len() - j,
{
    if j == s.len() {
        assert(s.take(j) =~= s);
    } else {
        let s1 = s.drop_last();
        assert(s.take(j) =~= s1.take(j));
        assert forall|i: int| j <= i < s1.len() implies ((#[trigger] s1[i]).phase,
            s1[i].opcode as int) != key by {
            assert(s1[i] == s[i]);
        }
        lemma_table_untouched(s1, key, j);
        assert((s.last().phase, s.last().opcode as int) != key);
    }
}

impl PacketRegistry {
    /// The mapping this registry holds.
    pub open spec fn table(&self) -> Map<(ConnectionPhase, int), PacketKind> {
        entries_table(self.entries@)
    }

    /// An empty registry.
    pub fn new() -> (r: Self)
        ensures
            r.table() == Map::<(ConnectionPhase, int), PacketKind>::empty(),
    {
        PacketRegistry { entries: Vec::new() }
    }

    /// Registers a unit for a (phase, opcode) pair; a later registration
    /// for the same pair replaces an earlier one.
    pub fn register(&mut self, phase: ConnectionPhase, id: i32, kind: PacketKind)
        ensures
            final(self).table() == old(self).table().insert((phase, id as int), kind),
    {
        let ghost before = self.entries@;
        self.entries.push(RegistryEntry { phase, opcode: id, kind });
        proof {
            assert(self.entries@.drop_last() =~= before);
        }
    }

    /// Looks the pair up; the last registration for it wins.
    #[verifier::spinoff_prover]
    fn lookup(&self, phase: ConnectionPhase, id: i32) -> (r: Option<PacketKind>)
        ensures
            match r {
                Some(k) => self.table().contains_key((phase, id as int)) && self.table()[(
                    phase,
                    id as int,
                )] == k,
                None => !self.table().contains_key((phase, id as int)),
            },
    {
        let ghost key = (phase, id as int);
        let n = self.entries.len();
        let mut i: usize = n;
        while i > 0
            invariant
                i <= n,
                n == self.entries@.len(),
                key == (phase, id as int),
                forall|k: int| i <= k < n ==> ((#[trigger] self.entries@[k]).phase,
                    self.entries@[k].opcode as int) != key,
            decreases i,
        {
            i = i - 1;
            let e = self.entries[i];
            if e.opcode == id && e.phase == phase {
                proof {
                    lemma_table_untouched(self.entries@, key, i + 1);
                    let pre = self.entries@.take(i + 1);
                    assert(pre.drop_last() =~= self.entries@.take(i as int));
                    assert(pre.last() == self.entries@[i as int]);
                }
                return Some(e.kind);
            }
        }
        proof {
            lemma_table_untouched(self.entries@, key, 0);
            assert(self.entries@.take(0) =~= Seq::<RegistryEntry>::empty());
        }
        None
    }

    /// Dispatches one frame body: looks the (phase, opcode) pair up,
    /// decodes the registered packet from the bytes after the opcode, and
    /// runs its handler.  An unregistered pair is not an error: the frame
    /// is discarded and the read loop continues.
    #[verifier::spinoff_prover]
    #[verifier::rlimit(100)]
    pub fn handle_packet(
        &self,
        phase: ConnectionPhase,
        id: i32,
        body: &[u8],
        pos: usize,
        ctx: &mut Connection,
        world: &mut World,
    ) -> (r: Result<DispatchOutcome, ProtocolError>)
        requires
            pos <= body@.len(),
            old(world).wf(),
        ensures
            dispatch_step(self.table(), phase, id as int, body@, pos as int, *old(ctx),
                *old(world), *final(ctx), *final(world), r),
    {
        let kind = match self.lookup(phase, id) {
            Some(k) => k,
            None => {
                return Ok(DispatchOutcome::NotFound);
            }
        };
        match kind {
            PacketKind::Handshake => match HandshakePacket::decode(body, pos) {
                Ok((p, _)) => match p.handle(ctx, world) {
                    Ok(()) => Ok(DispatchOutcome::Handled),
                    Err(e) => Err(e),
                },
                Err(e) => Err(ProtocolError::Decode(e)),
            },
            PacketKind::StatusRequest => match StatusRequestPacket::decode(body, pos) {
                Ok((p, _)) => match p.handle(ctx, world) {
                    Ok(()) => Ok(DispatchOutcome::Handled),
                    Err(e) => Err(e),
                },
                Err(e) => Err(ProtocolError::Decode(e)),
            },
            PacketKind::PingRequest => match PingRequestPacket::decode(body, pos) {
                Ok((p, _)) => match p.handle(ctx, world) {
                    Ok(()) => Ok(DispatchOutcome::Handled),
                    Err(e) => Err(e),
                },
                Err(e) => Err(ProtocolError::Decode(e)),
            },
            PacketKind::LoginStart => match LoginStartRequestPacket::decode(body, pos) {
                Ok((p, _)) => match p.handle(ctx, world) {
                    Ok(()) => Ok(DispatchOutcome::Handled),
                    Err(e) => Err(e),
                },
                Err(e) => Err(ProtocolError::Decode(e)),
            },
            PacketKind::LoginAcknowledged => match LoginAcknowledgedRequestPacket::decode(body, pos) {
                Ok((p, _)) => match p.handle(ctx, world) {
                    Ok(()) => Ok(DispatchOutcome::Handled),
                    Err(e) => Err(e),
                },
                Err(e) => Err(ProtocolError::Decode(e)),
            },
            PacketKind::PluginMessageConfiguration => match PluginMessageConfigurationRequestPacket::decode(body, pos) {
                Ok((p, _)) => match p.handle(ctx, world) {
                    Ok(()) => Ok(DispatchOutcome::Handled),
                    Err(e) => Err(e),
                },
                Err(e) => Err(ProtocolError::Decode(e)),
            },
            PacketKind::ClientInformation => match ClientInformationRequestPacket::decode(body, pos) {
                Ok((p, _)) => match p.handle(ctx, world) {
                    Ok(()) => Ok(DispatchOutcome::Handled),
                    Err(e) => Err(e),
                },
                Err(e) => Err(ProtocolError::Decode(e)),
            },
            PacketKind::KnownPacks => match KnownPacksRequestPacket::decode(body, pos) {
                Ok((p, _)) => match p.handle(ctx, world) {
                    Ok(()) => Ok(DispatchOutcome::Handled),
                    Err(e) => Err(e),
                },
                Err(e) => Err(ProtocolError::Decode(e)),
            },
            PacketKind::AcknowledgeFinishConfiguration => match AcknowledgeFinishConfigurationRequestPacket::decode(body, pos) {
                Ok((p, _)) => match p.handle(ctx, world) {
                    Ok(()) => Ok(DispatchOutcome::Handled),
                    Err(e) => Err(e),
                },
                Err(e) => Err(ProtocolError::Decode(e)),
            },
            PacketKind::TeleportConfirmation => match TeleportConfirmationRequestPacket::decode(body, pos) {
                Ok((p, _)) => match p.handle(ctx, world) {
                    Ok(()) => Ok(DispatchOutcome::Handled),
                    Err(e) => Err(e),
                },
                Err(e) => Err(ProtocolError::Decode(e)),
            },
            PacketKind::SetPlayerPositionAndRotation => match SetPlayerPositionAndRotationRequestPacket::decode(body, pos) {
                Ok((p, _)) => match p.handle(ctx, world) {
                    Ok(()) => Ok(DispatchOutcome::Handled),
                    Err(e) => Err(e),
                },
                Err(e) => Err(ProtocolError::Decode(e)),
            },
            PacketKind::ClientTickEnd => match ClientTickEndRequestPacket::decode(body, pos) {
                Ok((p, _)) => match p.handle(ctx, world) {
                    Ok(()) => Ok(DispatchOutcome::Handled),
                    Err(e) => Err(e),
                },
                Err(e) => Err(ProtocolError::Decode(e)),
            },
        }
    }

    /// The registry this server starts with: the opcode table of every
    /// phase, one registration per inbound packet.
    pub fn with_defaults() -> (r: Self)
        ensures
            r.table() == Map::<(ConnectionPhase, int), PacketKind>::empty()
                .insert((ConnectionPhase::Handshaking, 0x00), PacketKind::Handshake)
                .insert((ConnectionPhase::Status, 0x00), PacketKind::StatusRequest)
                .insert((ConnectionPhase::Status, 0x01), PacketKind::PingRequest)
                .insert((ConnectionPhase::Login, 0x00), PacketKind::LoginStart)
                .insert((ConnectionPhase::Login, 0x03), PacketKind::LoginAcknowledged)
                .insert((ConnectionPhase::Configuration, 0x02), PacketKind::PluginMessageConfiguration)
                .insert((ConnectionPhase::Configuration, 0x00), PacketKind::ClientInformation)
                .insert((ConnectionPhase::Configuration, 0x07), PacketKind::KnownPacks)
                .insert((ConnectionPhase::Configuration, 0x03), PacketKind::AcknowledgeFinishConfiguration)
                .insert((ConnectionPhase::Play, 0x00), PacketKind::TeleportConfirmation)
                .insert((ConnectionPhase::Play, 0x1E), PacketKind::SetPlayerPositionAndRotation)
                .insert((ConnectionPhase::Play, 0x0C), PacketKind::ClientTickEnd),
    {
        let mut r = PacketRegistry::new();
        r.register(ConnectionPhase::Handshaking, 0x00, PacketKind::Handshake);
        r.register(ConnectionPhase::Status, 0x00, PacketKind::StatusRequest);
        r.register(ConnectionPhase::Status, 0x01, PacketKind::PingRequest);
        r.register(ConnectionPhase::Login, 0x00, PacketKind::LoginStart);
        r.register(ConnectionPhase::Login, 0x03, PacketKind::LoginAcknowledged);
        r.register(ConnectionPhase::Configuration, 0x02, PacketKind::PluginMessageConfiguration);
        r.register(ConnectionPhase::Configuration, 0x00, PacketKind::ClientInformation);
        r.register(ConnectionPhase::Configuration, 0x07, PacketKind::KnownPacks);
        r.register(ConnectionPhase::Configuration, 0x03, PacketKind::AcknowledgeFinishConfiguration);
        r.register(ConnectionPhase::Play, 0x00, PacketKind::TeleportConfirmation);
        r.register(ConnectionPhase::Play, 0x1E, PacketKind::SetPlayerPositionAndRotation);
        r.register(ConnectionPhase::Play, 0x0C, PacketKind::ClientTickEnd);
        r
    }
}

/// Processes one frame body against the registry: reads the opcode, then
/// dispatches the remaining bytes under the connection's current phase.
pub fn process_frame(
    registry: &PacketRegistry,
    ctx: &mut Connection,
    world: &mut World,
    body: &[u8],
) -> (r: Result<DispatchOutcome, ProtocolError>)
    requires
        old(world).wf(),
    ensures
        match parse_varint(body@, 0) {
            Err(e) => r == Err::<DispatchOutcome, ProtocolError>(ProtocolError::Decode(e))
                && *final(ctx) == *old(ctx) && *final(world) == *old(world),
            Ok((op, p)) => dispatch_step(registry.table(), old(ctx).phase, (op as i32) as int,
                body@, p, *old(ctx), *old(world), *final(ctx), *final(world), r),
        },
{
    let (op, p) = match read_varint(body, 0) {
        Ok(x) => x,
        Err(e) => {
            return Err(ProtocolError::Decode(e));
        }
    };
    proof {
        assert((op as u32) as i32 == op) by (bit_vector);
    }
    let phase = ctx.phase;
    registry.handle_packet(phase, op, body, p, ctx, world)
}

} // verus!
