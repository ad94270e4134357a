//! Configuration-phase packets: the brand exchange, the client's settings,
//! the feature and pack negotiation, registry delivery, and the finish
//! acknowledgement that starts play.
use vstd::prelude::*;

use crate::codec::{
    parse_bool, parse_i8, parse_string, parse_u8, parse_varint, read_bool, read_i8, read_string,
    read_u8, read_varint, string_encoding, varint_encode, write_string, DecodeError,
};
use crate::connection::{frame_bytes, Connection, ConnectionPhase, ProtocolError, SpecNetMessage};
use crate::data_types::{
    known_pack_bytes, parse_known_packs, prefixed_array_bytes, read_known_packs, Byte, KnownPack,
    Packet, PacketWrite, RawBytes, SpecKnownPack, UnsignedByte, VarInt,
};
use crate::identifier::{identifier_bytes, parse_identifier, Identifier, SpecIdentifier};
use crate::packets::play::{
    login_nullspace_payload, sync_position_nullspace_payload, LoginResponsePacket,
    SynchronizePlayerPositionResponsePacket,
};
use crate::world::{send_all_registries, registry_frames, World};

verus! {

use vstd::utf8::{encode_utf8, is_ascii_chars, is_ascii_chars_encode_utf8};

/// The `minecraft:brand` channel identifier.
pub open spec fn brand_ident() -> SpecIdentifier {
    SpecIdentifier { namespace: "minecraft"@, value: "brand"@ }
}

/// The `minecraft:vanilla` feature flag identifier.
pub open spec fn vanilla_ident() -> SpecIdentifier {
    SpecIdentifier { namespace: "minecraft"@, value: "vanilla"@ }
}

/// The core pack this server announces.
pub open spec fn core_pack() -> SpecKnownPack {
    SpecKnownPack { namespace: "minecraft"@, id: "core"@, version: "1.21.11"@ }
}

/// The body of the brand response: the brand channel, then the server's
/// brand name as a wire string.
pub open spec fn plugin_brand_payload() -> Seq<u8> {
    identifier_bytes(brand_ident()) + string_encoding("Nullspace"@)
}

/// The body of the feature-flags packet: one flag, `minecraft:vanilla`.
pub open spec fn feature_flags_payload() -> Seq<u8> {
    varint_encode(1) + identifier_bytes(vanilla_ident())
}

/// The body of the known-packs announcement: one pack, `minecraft:core`.
pub open spec fn known_packs_payload() -> Seq<u8> {
    varint_encode(1) + known_pack_bytes(core_pack())
}

/// The literals in the fixed configuration payloads are ASCII, so their
/// UTF-8 byte counts equal their character counts.
pub proof fn lemma_config_literals()
    ensures
        encode_utf8("minecraft"@).len() == 9,
        encode_utf8("brand"@).len() == 5,
        encode_utf8("vanilla"@).len() == 7,
        encode_utf8("core"@).len() == 4,
        encode_utf8("1.21.11"@).len() == 7,
        encode_utf8("Nullspace"@).len() == 9,
{
    reveal_strlit("minecraft");
    reveal_strlit("brand");
    reveal_strlit("vanilla");
    reveal_strlit("core");
    reveal_strlit("1.21.11");
    reveal_strlit("Nullspace");
    assert(is_ascii_chars("minecraft"@));
    assert(is_ascii_chars("brand"@));
    assert(is_ascii_chars("vanilla"@));
    assert(is_ascii_chars("core"@));
    assert(is_ascii_chars("1.21.11"@));
    assert(is_ascii_chars("Nullspace"@));
    is_ascii_chars_encode_utf8("minecraft"@);
    is_ascii_chars_encode_utf8("brand"@);
    is_ascii_chars_encode_utf8("vanilla"@);
    is_ascii_chars_encode_utf8("core"@);
    is_ascii_chars_encode_utf8("1.21.11"@);
    is_ascii_chars_encode_utf8("Nullspace"@);
}

// ---------------------------------------------------------------------------
// Plugin messages.
// ---------------------------------------------------------------------------

/// Mathematical value of an inbound plugin message.
pub ghost struct SpecPluginMessage {
    /// The channel the message arrived on.
    pub channel: SpecIdentifier,
    /// The message's bytes, everything after the channel.
    pub data: Seq<u8>,
}

/// An inbound plugin message: a channel identifier and its raw payload.
pub struct PluginMessageConfigurationRequestPacket {
    /// The channel the message arrived on.
    pub channel: Identifier,
    /// The message's bytes, everything after the channel.
    pub data: RawBytes,
}

impl View for PluginMessageConfigurationRequestPacket {
    type V = SpecPluginMessage;

    open spec fn view(&self) -> SpecPluginMessage {
        SpecPluginMessage { channel: self.channel@, data: self.data@ }
    }
}

/// Parse of a plugin message: a channel identifier, then the frame's
/// remaining bytes.
pub open spec fn parse_plugin_message(data: Seq<u8>, pos: int) -> Result<(SpecPluginMessage, int), DecodeError> {
    match parse_identifier(data, pos) {
        Err(e) => Err(e),
        Ok((channel, p1)) => Ok((SpecPluginMessage {
            channel,
            data: data.subrange(p1, data.len() as int),
        }, data.len() as int)),
    }
}

impl Packet for PluginMessageConfigurationRequestPacket {
    open spec fn parse(data: Seq<u8>, pos: int) -> Result<(SpecPluginMessage, int), DecodeError> {
        parse_plugin_message(data, pos)
    }

    open spec fn wf(&self) -> bool {
        true
    }

    fn decode(data: &[u8], pos: usize) -> (r: Result<(Self, usize), DecodeError>) {
        let (channel, p1) = match Identifier::decode(data, pos) {
            Ok(x) => x,
            Err(e) => {
                return Err(e);
            }
        };
        let (raw, p2) = match RawBytes::decode(data, p1) {
            Ok(x) => x,
            Err(e) => {
                return Err(e);
            }
        };
        Ok((PluginMessageConfigurationRequestPacket { channel, data: raw }, p2))
    }
}

/// The outbound plugin message: a channel and a raw payload.
pub struct PluginMessageConfigurationResponsePacket {
    /// The channel to deliver on.
    pub channel: Identifier,
    /// The message's bytes.
    pub data: RawBytes,
}

impl PacketWrite for PluginMessageConfigurationResponsePacket {
    open spec fn encoded(&self) -> Seq<u8> {
        identifier_bytes(self.channel@) + self.data@
    }

    open spec fn writable(&self) -> bool {
        self.channel.writable()
    }

    fn write_to(&self, buf: &mut Vec<u8>) {
        self.channel.write_to(buf);
        self.data.write_to(buf);
        proof {
            assert(buf@ =~= old(buf)@ + self.encoded());
        }
    }
}

impl PluginMessageConfigurationResponsePacket {
    /// The brand response this server sends: its own name on the brand
    /// channel.
    pub fn nullspace() -> (r: PluginMessageConfigurationResponsePacket)
        ensures
            r.encoded() == plugin_brand_payload(),
            r.writable(),
    {
        proof {
            lemma_config_literals();
        }
        let mut payload_buffer: Vec<u8> = Vec::new();
        write_string("Nullspace", &mut payload_buffer);
        let r = PluginMessageConfigurationResponsePacket {
            channel: Identifier::new("minecraft", "brand"),
            data: RawBytes(payload_buffer),
        };
        proof {
            assert(r.encoded() =~= plugin_brand_payload());
        }
        r
    }
}

// ---------------------------------------------------------------------------
// Feature flags and known packs.
// ---------------------------------------------------------------------------

/// The feature flags this server announces.
pub struct FeatureFlagsResponsePacket {
    /// The enabled feature flags.
    pub flags: Vec<Identifier>,
}

impl PacketWrite for FeatureFlagsResponsePacket {
    open spec fn encoded(&self) -> Seq<u8> {
        prefixed_array_bytes(self.flags@)
    }

    open spec fn writable(&self) -> bool {
        self.flags@.len() <= 0x7fff_ffff && (forall|i: int|
            0 <= i < self.flags@.len() ==> (#[trigger] self.flags@[i]).writable())
    }

    fn write_to(&self, buf: &mut Vec<u8>) {
        crate::data_types::write_prefixed_array(&self.flags, buf);
    }
}

impl FeatureFlagsResponsePacket {
    /// The flag set this server announces: `minecraft:vanilla` alone.
    pub fn nullspace() -> (r: FeatureFlagsResponsePacket)
        ensures
            r.encoded() == feature_flags_payload(),
            r.writable(),
    {
        proof {
            lemma_config_literals();
        }
        let mut flags: Vec<Identifier> = Vec::new();
        flags.push(Identifier::new("minecraft", "vanilla"));
        let r = FeatureFlagsResponsePacket { flags };
        proof {
            assert(r.flags@.drop_last() =~= Seq::<Identifier>::empty());
            assert(crate::data_types::array_body(Seq::<Identifier>::empty()) == Seq::<u8>::empty());
            assert(crate::data_types::array_body(r.flags@) == crate::data_types::array_body(
                r.flags@.drop_last()) + r.flags@.last().encoded());
            assert(crate::data_types::array_body(r.flags@) =~= r.flags@.last().encoded());
            assert(r.encoded() =~= feature_flags_payload());
        }
        r
    }
}

/// The packs this server announces.
pub struct KnownPacksResponsePacket {
    /// The announced packs.
    pub packs: Vec<KnownPack>,
}

impl PacketWrite for KnownPacksResponsePacket {
    open spec fn encoded(&self) -> Seq<u8> {
        prefixed_array_bytes(self.packs@)
    }

    open spec fn writable(&self) -> bool {
        self.packs@.len() <= 0x7fff_ffff && (forall|i: int|
            0 <= i < self.packs@.len() ==> (#[trigger] self.packs@[i]).writable())
    }

    fn write_to(&self, buf: &mut Vec<u8>) {
        crate::data_types::write_prefixed_array(&self.packs, buf);
    }
}

impl KnownPacksResponsePacket {
    /// The pack set this server announces: the core pack alone.
    pub fn nullspace() -> (r: KnownPacksResponsePacket)
        ensures
            r.encoded() == known_packs_payload(),
            r.writable(),
    {
        proof {
            lemma_config_literals();
        }
        let mut packs: Vec<KnownPack> = Vec::new();
        packs.push(KnownPack {
            namespace: <String as vstd::string::StringExecFns>::from_str("minecraft"),
            id: <String as vstd::string::StringExecFns>::from_str("core"),
            version: <String as vstd::string::StringExecFns>::from_str("1.21.11"),
        });
        let r = KnownPacksResponsePacket { packs };
        proof {
            assert(r.packs@.drop_last() =~= Seq::<KnownPack>::empty());
            assert(crate::data_types::array_body(Seq::<KnownPack>::empty()) == Seq::<u8>::empty());
            assert(crate::data_types::array_body(r.packs@) == crate::data_types::array_body(
                r.packs@.drop_last()) + r.packs@.last().encoded());
            assert(crate::data_types::array_body(r.packs@) =~= r.packs@.last().encoded());
            assert(r.encoded() =~= known_packs_payload());
        }
        r
    }
}

/// Whether a decoded brand announcement is acceptable: anything when
/// modded clients are tolerated, exactly `vanilla` when they are not.
pub open spec fn brand_accepted(reject_modded: bool, brand: Seq<char>) -> bool {
    !reject_modded || brand == "vanilla"@
}

impl PluginMessageConfigurationRequestPacket {
    /// Handles a plugin message.  On the brand channel the payload must
    /// hold a readable brand string; whether a brand other than `vanilla`
    /// is tolerated or fatal is the world's `reject_modded` setting.
    /// Answers with the server's brand, its feature flags, and its known
    /// packs.
    pub fn handle(&self, ctx: &mut Connection, world: &mut World) -> (r: Result<(), ProtocolError>)
        ensures
            *final(world) == *old(world),
            final(ctx).phase == old(ctx).phase,
            final(ctx).is_alive == old(ctx).is_alive,
            match r {
                Ok(()) => {
                    &&& (self.channel@ == brand_ident() ==> (parse_string(self.data@, 0) matches
                        Ok((brand, _)) && brand_accepted(old(world).reject_modded, brand)))
                    &&& final(ctx).queued() == old(ctx).queued() + seq![
                        SpecNetMessage::SendPacket(frame_bytes(0x01, plugin_brand_payload())),
                        SpecNetMessage::SendPacket(frame_bytes(0x0C, feature_flags_payload())),
                        SpecNetMessage::SendPacket(frame_bytes(0x0E, known_packs_payload()))]
                },
                Err(e) => {
                    &&& *final(ctx) == *old(ctx)
                    &&& self.channel@ == brand_ident()
                    &&& match e {
                        ProtocolError::Decode(de) => parse_string(self.data@, 0)
                            == Err::<(Seq<char>, int), DecodeError>(de),
                        ProtocolError::ModdedClient => (parse_string(self.data@, 0) matches
                            Ok((brand, _)) && !brand_accepted(old(world).reject_modded, brand)),
                        _ => false,
                    }
                },
            },
    {
        let brand_channel = Identifier::minecraft("brand");
        if self.channel.equals(&brand_channel) {
            // The brand string must decode; whether its content matters is
            // the host's choice.
            match read_string(self.data.0.as_slice(), 0) {
                Ok((brand, _)) => {
                    let vanilla = <String as vstd::string::StringExecFns>::from_str("vanilla");
                    if world.reject_modded && !(brand == vanilla) {
                        return Err(ProtocolError::ModdedClient);
                    }
                }
                Err(e) => {
                    return Err(ProtocolError::Decode(e));
                }
            }
        }
        proof {
            lemma_config_literals();
        }
        ctx.send_packet(0x01, PluginMessageConfigurationResponsePacket::nullspace());
        ctx.send_packet(0x0C, FeatureFlagsResponsePacket::nullspace());
        ctx.send_packet(0x0E, KnownPacksResponsePacket::nullspace());
        proof {
            assert(ctx.queued() =~= old(ctx).queued() + seq![
                SpecNetMessage::SendPacket(frame_bytes(0x01, plugin_brand_payload())),
                SpecNetMessage::SendPacket(frame_bytes(0x0C, feature_flags_payload())),
                SpecNetMessage::SendPacket(frame_bytes(0x0E, known_packs_payload()))]);
        }
        Ok(())
    }
}

// ---------------------------------------------------------------------------
// Client information.
// ---------------------------------------------------------------------------

/// Mathematical value of the client's settings.
pub ghost struct SpecClientInformation {
    /// The client's locale characters.
    pub locale: Seq<char>,
    /// The requested view distance.
    pub view_distance: i8,
    /// The chat visibility mode.
    pub chat_mode: i32,
    /// Whether chat colors are shown.
    pub chat_colors: bool,
    /// The displayed skin parts bit mask.
    pub displayed_skin_parts: u8,
    /// The main hand: 0 left, 1 right.
    pub main_hand: i32,
    /// Whether text filtering is enabled.
    pub enable_text_filtering: bool,
    /// Whether the player may appear in server listings.
    pub allow_server_listings: bool,
    /// The particle display level.
    pub particle_status: i32,
}

/// The client's settings, reported on entering configuration.
pub struct ClientInformationRequestPacket {
    /// The client's locale.
    pub locale: String,
    /// The requested view distance.
    pub view_distance: Byte,
    /// The chat visibility mode.
    pub chat_mode: VarInt,
    /// Whether chat colors are shown.
    pub chat_colors: bool,
    /// The displayed skin parts bit mask.
    pub displayed_skin_parts: UnsignedByte,
    /// The main hand: 0 left, 1 right.
    pub main_hand: VarInt,
    /// Whether text filtering is enabled.
    pub enable_text_filtering: bool,
    /// Whether the player may appear in server listings.
    pub allow_server_listings: bool,
    /// The particle display level.
    pub particle_status: VarInt,
}

impl View for ClientInformationRequestPacket {
    type V = SpecClientInformation;

    open spec fn view(&self) -> SpecClientInformation {
        SpecClientInformation {
            locale: self.locale@,
            view_distance: self.view_distance.0,
            chat_mode: self.chat_mode.0,
            chat_colors: self.chat_colors,
            displayed_skin_parts: self.displayed_skin_parts.0,
            main_hand: self.main_hand.0,
            enable_text_filtering: self.enable_text_filtering,
            allow_server_listings: self.allow_server_listings,
            particle_status: self.particle_status.0,
        }
    }
}

/// Parse of the client's settings: nine fields in order.
pub open spec fn parse_client_information(data: Seq<u8>, pos: int) -> Result<(SpecClientInformation, int), DecodeError> {
    match parse_string(data, pos) {
        Err(e) => Err(e),
        Ok((locale, p1)) => match parse_i8(data, p1) {
            Err(e) => Err(e),
            Ok((view_distance, p2)) => match parse_varint(data, p2) {
                Err(e) => Err(e),
                Ok((chat_mode, p3)) => match parse_bool(data, p3) {
                    Err(e) => Err(e),
                    Ok((chat_colors, p4)) => match parse_u8(data, p4) {
                        Err(e) => Err(e),
                        Ok((displayed_skin_parts, p5)) => match parse_varint(data, p5) {
                            Err(e) => Err(e),
                            Ok((main_hand, p6)) => match parse_bool(data, p6) {
                                Err(e) => Err(e),
                                Ok((enable_text_filtering, p7)) => match parse_bool(data, p7) {
                                    Err(e) => Err(e),
                                    Ok((allow_server_listings, p8)) => match parse_varint(data, p8) {
                                        Err(e) => Err(e),
                                        Ok((particle_status, p9)) => Ok((SpecClientInformation {
                                            locale,
                                            view_distance,
                                            chat_mode: chat_mode as i32,
                                            chat_colors,
                                            displayed_skin_parts,
                                            main_hand: main_hand as i32,
                                            enable_text_filtering,
                                            allow_server_listings,
                                            particle_status: particle_status as i32,
                                        }, p9)),
                                    },
                                },
                            },
                        },
                    },
                },
            },
        },
    }
}

impl Packet for ClientInformationRequestPacket {
    open spec fn parse(data: Seq<u8>, pos: int) -> Result<(SpecClientInformation, int), DecodeError> {
        parse_client_information(data, pos)
    }

    open spec fn wf(&self) -> bool {
        true
    }

    fn decode(data: &[u8], pos: usize) -> (r: Result<(Self, usize), DecodeError>) {
        let (locale, p1) = match read_string(data, pos) {
            Ok(x) => x,
            Err(e) => {
                return Err(e);
            }
        };
        let (view_distance, p2) = match read_i8(data, p1) {
            Ok(x) => x,
            Err(e) => {
                return Err(e);
            }
        };
        let (chat_mode, p3) = match read_varint(data, p2) {
            Ok(x) => x,
            Err(e) => {
                return Err(e);
            }
        };
        let (chat_colors, p4) = match read_bool(data, p3) {
            Ok(x) => x,
            Err(e) => {
                return Err(e);
            }
        };
        let (displayed_skin_parts, p5) = match read_u8(data, p4) {
            Ok(x) => x,
            Err(e) => {
                return Err(e);
            }
        };
        let (main_hand, p6) = match read_varint(data, p5) {
            Ok(x) => x,
            Err(e) => {
                return Err(e);
            }
        };
        let (enable_text_filtering, p7) = match read_bool(data, p6) {
            Ok(x) => x,
            Err(e) => {
                return Err(e);
            }
        };
        let (allow_server_listings, p8) = match read_bool(data, p7) {
            Ok(x) => x,
            Err(e) => {
                return Err(e);
            }
        };
        let (particle_status, p9) = match read_varint(data, p8) {
            Ok(x) => x,
            Err(e) => {
                return Err(e);
            }
        };
        proof {
            assert((chat_mode as u32) as i32 == chat_mode) by (bit_vector);
            assert((main_hand as u32) as i32 == main_hand) by (bit_vector);
            assert((particle_status as u32) as i32 == particle_status) by (bit_vector);
        }
        Ok((ClientInformationRequestPacket {
            locale,
            view_distance: Byte(view_distance),
            chat_mode: VarInt(chat_mode),
            chat_colors,
            displayed_skin_parts: UnsignedByte(displayed_skin_parts),
            main_hand: VarInt(main_hand),
            enable_text_filtering,
            allow_server_listings,
            particle_status: VarInt(particle_status),
        }, p9))
    }
}

impl ClientInformationRequestPacket {
    /// Accepts the settings; this server does not act on them.
    pub fn handle(&self, ctx: &mut Connection, world: &mut World) -> (r: Result<(), ProtocolError>)
        ensures
            *final(world) == *old(world),
            *final(ctx) == *old(ctx),
            r is Ok,
    {
        Ok(())
    }
}

// ---------------------------------------------------------------------------
// Known packs and registry delivery.
// ---------------------------------------------------------------------------

/// The client's answer naming the packs it already knows.
pub struct KnownPacksRequestPacket {
    /// The packs the client knows.
    pub known_packs: Vec<KnownPack>,
}

impl View for KnownPacksRequestPacket {
    type V = Seq<SpecKnownPack>;

    open spec fn view(&self) -> Seq<SpecKnownPack> {
        crate::data_types::known_pack_views(self.known_packs@)
    }
}

impl Packet for KnownPacksRequestPacket {
    open spec fn parse(data: Seq<u8>, pos: int) -> Result<(Seq<SpecKnownPack>, int), DecodeError> {
        parse_known_packs(data, pos)
    }

    open spec fn wf(&self) -> bool {
        true
    }

    fn decode(data: &[u8], pos: usize) -> (r: Result<(Self, usize), DecodeError>) {
        match read_known_packs(data, pos) {
            Ok((known_packs, end)) => Ok((KnownPacksRequestPacket { known_packs }, end)),
            Err(e) => Err(e),
        }
    }
}

/// The finish-configuration order: an empty body.
pub struct FinishConfigurationResponsePacket {}

impl PacketWrite for FinishConfigurationResponsePacket {
    open spec fn encoded(&self) -> Seq<u8> {
        Seq::empty()
    }

    open spec fn writable(&self) -> bool {
        true
    }

    fn write_to(&self, buf: &mut Vec<u8>) {
        proof {
            assert(buf@ + Seq::<u8>::empty() =~= buf@);
        }
    }
}

impl KnownPacksRequestPacket {
    /// Delivers every whitelisted registry blob and the tag blob, then
    /// orders the client to finish configuration.
    pub fn handle(&self, ctx: &mut Connection, world: &mut World) -> (r: Result<(), ProtocolError>)
        requires
            old(world).wf(),
        ensures
            *final(world) == *old(world),
            final(ctx).phase == old(ctx).phase,
            final(ctx).is_alive == old(ctx).is_alive,
            r is Ok,
            final(ctx).queued() == old(ctx).queued() + registry_frames(old(world).files()) + seq![
                SpecNetMessage::SendPacket(frame_bytes(0x03, Seq::empty()))],
    {
        proof {
            assert forall|i: int| 0 <= i < world.registry_files@.len() implies (#[trigger]
                world.registry_files@[i]).data@.len() + 5 <= 0x7fff_ffff by {
                assert(old(world).files()[i] == world.registry_files@[i]@);
            }
        }
        send_all_registries(ctx, &world.registry_files);
        ctx.send_packet(0x03, FinishConfigurationResponsePacket {});
        proof {
            assert(ctx.queued() =~= old(ctx).queued() + registry_frames(old(world).files())
                + seq![SpecNetMessage::SendPacket(frame_bytes(0x03, Seq::empty()))]);
        }
        Ok(())
    }
}

/// The client's acknowledgement that configuration is finished.
pub struct AcknowledgeFinishConfigurationRequestPacket {}

impl View for AcknowledgeFinishConfigurationRequestPacket {
    type V = ();

    open spec fn view(&self) -> () {
        ()
    }
}

impl Packet for AcknowledgeFinishConfigurationRequestPacket {
    open spec fn parse(data: Seq<u8>, pos: int) -> Result<((), int), DecodeError> {
        Ok(((), pos))
    }

    open spec fn wf(&self) -> bool {
        true
    }

    fn decode(data: &[u8], pos: usize) -> (r: Result<(Self, usize), DecodeError>) {
        Ok((AcknowledgeFinishConfigurationRequestPacket {}, pos))
    }
}

impl AcknowledgeFinishConfigurationRequestPacket {
    /// Moves the connection into play and sends the join payload and the
    /// first position synchronization.
    pub fn handle(&self, ctx: &mut Connection, world: &mut World) -> (r: Result<(), ProtocolError>)
        ensures
            *final(world) == *old(world),
            final(ctx).is_alive == old(ctx).is_alive,
            r is Ok,
            final(ctx).phase == ConnectionPhase::Play,
            final(ctx).queued() == old(ctx).queued() + seq![
                SpecNetMessage::SendPacket(frame_bytes(0x30, login_nullspace_payload())),
                SpecNetMessage::SendPacket(frame_bytes(0x46, sync_position_nullspace_payload()))],
    {
        ctx.phase = ConnectionPhase::Play;
        proof {
            crate::packets::play::lemma_login_payload_lens();
        }
        ctx.send_packet(0x30, LoginResponsePacket::nullspace());
        ctx.send_packet(0x46, SynchronizePlayerPositionResponsePacket::nullspace());
        proof {
            assert(ctx.queued() =~= old(ctx).queued() + seq![
                SpecNetMessage::SendPacket(frame_bytes(0x30, login_nullspace_payload())),
                SpecNetMessage::SendPacket(frame_bytes(0x46, sync_position_nullspace_payload()))]);
        }
        Ok(())
    }
}

} // verus!
