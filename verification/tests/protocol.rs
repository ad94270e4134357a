//! Protocol behavior: phase transitions, dispatch, ordering, the session
//! registry, the tick scheduler, and a full simulated login.
use nullspace::codec::{read_string, read_uuid, read_varint, write_string, write_u16, write_varint, write_uuid};
use nullspace::connection::{read_frame, Connection, ConnectionPhase, NetMessage, ProtocolError};
use nullspace::data_types::{
    read_known_packs, GameProfile, GameProfileProperty, KnownPack, Packet, PacketWrite, VarInt,
};
use nullspace::identifier::Identifier;
use nullspace::packets::handshake::HandshakePacket;
use nullspace::packets::play::KeepAliveResponsePacket;
use nullspace::registry::{process_frame, DispatchOutcome, PacketKind, PacketRegistry};
use nullspace::world::{make_keep_alive_frame, Player, RegistryFile, World};
use nullspace::DecodeError;

fn sent_frames(conn: &Connection) -> Vec<Vec<u8>> {
    let mut out = Vec::new();
    for m in conn.outbound.iter() {
        if let NetMessage::SendPacket(bytes) = m {
            out.push(bytes.clone());
        }
    }
    out
}

/// Splits a frame into its opcode and payload.
fn open_frame(frame: &[u8]) -> (i32, Vec<u8>) {
    let (body, end) = read_frame(frame, 0).unwrap();
    assert_eq!(end, frame.len());
    let (opcode, p) = read_varint(&body, 0).unwrap();
    (opcode, body[p..].to_vec())
}

fn handshake(intent: i32) -> HandshakePacket {
    HandshakePacket {
        protocol_version: VarInt(774),
        server_address: "localhost".to_string(),
        port: 25565,
        next_state: VarInt(intent),
    }
}

#[test]
fn handshake_intent_one_yields_status() {
    let mut ctx = Connection::new(ConnectionPhase::Handshaking);
    let mut world = World::new(Vec::new());
    assert!(handshake(1).handle(&mut ctx, &mut world).is_ok());
    assert_eq!(ctx.phase, ConnectionPhase::Status);
}

#[test]
fn handshake_intent_two_yields_login() {
    let mut ctx = Connection::new(ConnectionPhase::Handshaking);
    let mut world = World::new(Vec::new());
    assert!(handshake(2).handle(&mut ctx, &mut world).is_ok());
    assert_eq!(ctx.phase, ConnectionPhase::Login);
}

#[test]
fn handshake_intent_five_is_fatal_and_keeps_phase() {
    let mut ctx = Connection::new(ConnectionPhase::Handshaking);
    let mut world = World::new(Vec::new());
    let r = handshake(5).handle(&mut ctx, &mut world);
    assert_eq!(r, Err(ProtocolError::InvalidIntent));
    assert_eq!(ctx.phase, ConnectionPhase::Handshaking);
}

#[test]
fn handshake_wrong_protocol_version_is_fatal() {
    let mut ctx = Connection::new(ConnectionPhase::Handshaking);
    let mut world = World::new(Vec::new());
    let mut packet = handshake(1);
    packet.protocol_version = VarInt(763);
    let r = packet.handle(&mut ctx, &mut world);
    assert_eq!(r, Err(ProtocolError::VersionMismatch));
    assert_eq!(ctx.phase, ConnectionPhase::Handshaking);
}

#[test]
fn dispatch_registered_pair_invokes_handler_once() {
    let mut registry = PacketRegistry::new();
    registry.register(ConnectionPhase::Status, 0x00, PacketKind::StatusRequest);
    let mut ctx = Connection::new(ConnectionPhase::Status);
    let mut world = World::new(Vec::new());
    world.status_json = "{\"description\":{\"text\":\"hi\"}}".to_string();

    let body: Vec<u8> = Vec::new();
    let r = registry.handle_packet(ConnectionPhase::Status, 0x00, &body, 0, &mut ctx, &mut world);
    assert_eq!(r, Ok(DispatchOutcome::Handled));

    // Exactly one response frame: opcode 0x00 carrying the status text.
    let frames = sent_frames(&ctx);
    assert_eq!(frames.len(), 1);
    let (opcode, payload) = open_frame(&frames[0]);
    assert_eq!(opcode, 0x00);
    let (text, _) = read_string(&payload, 0).unwrap();
    assert_eq!(text, world.status_json);
}

#[test]
fn dispatch_unregistered_pair_is_not_found_and_loop_continues() {
    let mut registry = PacketRegistry::new();
    registry.register(ConnectionPhase::Status, 0x00, PacketKind::StatusRequest);
    let mut ctx = Connection::new(ConnectionPhase::Status);
    let mut world = World::new(Vec::new());

    let body: Vec<u8> = Vec::new();
    let r = registry.handle_packet(ConnectionPhase::Status, 0x09, &body, 0, &mut ctx, &mut world);
    assert_eq!(r, Ok(DispatchOutcome::NotFound));
    assert!(ctx.outbound.is_empty());
    assert!(ctx.is_alive);

    // The next frame still dispatches normally.
    let r = registry.handle_packet(ConnectionPhase::Status, 0x00, &body, 0, &mut ctx, &mut world);
    assert_eq!(r, Ok(DispatchOutcome::Handled));
    assert_eq!(sent_frames(&ctx).len(), 1);
}

#[test]
fn dispatch_decode_failure_is_fatal() {
    let registry = PacketRegistry::with_defaults();
    let mut ctx = Connection::new(ConnectionPhase::Status);
    let mut world = World::new(Vec::new());
    // A ping frame with an empty body cannot supply its timestamp.
    let body: Vec<u8> = Vec::new();
    let r = registry.handle_packet(ConnectionPhase::Status, 0x01, &body, 0, &mut ctx, &mut world);
    assert_eq!(r, Err(ProtocolError::Decode(DecodeError::UnexpectedEof)));
}

#[test]
fn last_registration_wins() {
    let mut registry = PacketRegistry::new();
    registry.register(ConnectionPhase::Play, 0x0C, PacketKind::PingRequest);
    registry.register(ConnectionPhase::Play, 0x0C, PacketKind::ClientTickEnd);
    let mut ctx = Connection::new(ConnectionPhase::Play);
    let mut world = World::new(Vec::new());
    // A tick-end handler accepts an empty body; a ping would demand bytes.
    let body: Vec<u8> = Vec::new();
    let r = registry.handle_packet(ConnectionPhase::Play, 0x0C, &body, 0, &mut ctx, &mut world);
    assert_eq!(r, Ok(DispatchOutcome::Handled));
    assert!(ctx.outbound.is_empty());
}

#[test]
fn handler_enqueues_in_order_despite_other_session_traffic() {
    // A configuration handler queues its three responses A, B, C while the
    // scheduler addresses a keep-alive to a different session; this
    // connection's wire sees exactly A, B, C in order.
    let registry = PacketRegistry::with_defaults();
    let mut ctx = Connection::new(ConnectionPhase::Configuration);
    let other = Player { uuid: 42, username: "other".to_string() };
    let mut world = World::new(vec![other]);

    // The inbound brand plugin message.
    let mut body = Vec::new();
    let mut brand = Vec::new();
    write_string("minecraft:brand", &mut brand);
    write_string("vanilla", &mut brand);
    write_varint(0x02, &mut body);
    body.extend_from_slice(&brand);

    let sends = world.broadcast_keep_alive(1234);
    let r = process_frame(&registry, &mut ctx, &mut world, &body);
    assert_eq!(r, Ok(DispatchOutcome::Handled));

    // The keep-alive went to the other session, not this connection.
    assert_eq!(sends.len(), 1);
    assert_eq!(sends[0].0, 42);
    assert_eq!(sends[0].1, make_keep_alive_frame(1234));

    let frames = sent_frames(&ctx);
    assert_eq!(frames.len(), 3);
    let opcodes: Vec<i32> = frames.iter().map(|f| open_frame(f).0).collect();
    assert_eq!(opcodes, vec![0x01, 0x0C, 0x0E]);
}

#[test]
fn keep_alive_frame_carries_the_clock() {
    let frame = make_keep_alive_frame(0x1122334455667788);
    let (opcode, payload) = open_frame(&frame);
    assert_eq!(opcode, 0x2B);
    assert_eq!(
        payload,
        vec![0x11, 0x22, 0x33, 0x44, 0x55, 0x66, 0x77, 0x88]
    );
    assert_eq!(KeepAliveResponsePacket::new(77).keep_alive_id, 77);
}

#[test]
fn tick_counts_and_schedules_keep_alives() {
    let mut world = World::new(Vec::new());
    assert!(world.tick());
    for _ in 0..299 {
        assert!(!world.tick());
    }
    assert_eq!(world.tick_count, 300);
    assert!(world.tick());
}

#[test]
fn insert_player_replaces_same_uuid() {
    let mut world = World::new(Vec::new());
    world.insert_player(Player { uuid: 7, username: "one".to_string() });
    world.insert_player(Player { uuid: 8, username: "two".to_string() });
    world.insert_player(Player { uuid: 7, username: "renamed".to_string() });
    assert_eq!(world.players.len(), 2);
    assert_eq!(world.players[0].uuid, 7);
    assert_eq!(world.players[0].username, "renamed");
    assert_eq!(world.players[1].uuid, 8);
}

#[test]
fn registry_files_are_whitelisted_and_tagged() {
    let mut ctx = Connection::new(ConnectionPhase::Configuration);
    let files = vec![
        RegistryFile { name: "minecraft_damage_type.bin".to_string(), data: vec![1, 2, 3] },
        RegistryFile { name: "minecraft_unlisted.bin".to_string(), data: vec![9] },
        RegistryFile { name: "packet_tags.bin".to_string(), data: vec![4, 5] },
        RegistryFile { name: "minecraft_timeline.bin".to_string(), data: vec![6] },
    ];
    nullspace::world::send_all_registries(&mut ctx, &files);
    let frames = sent_frames(&ctx);
    assert_eq!(frames.len(), 3);
    assert_eq!(open_frame(&frames[0]), (0x07, vec![1, 2, 3]));
    assert_eq!(open_frame(&frames[1]), (0x07, vec![6]));
    assert_eq!(open_frame(&frames[2]), (0x0D, vec![4, 5]));
}

#[test]
fn identifier_parsing_and_validation() {
    let id = Identifier::from_str("minecraft:brand").unwrap();
    assert_eq!(id.namespace, "minecraft");
    assert_eq!(id.value, "brand");

    // No colon: the default namespace.
    let id = Identifier::from_str("stone").unwrap();
    assert_eq!(id.namespace, "minecraft");
    assert_eq!(id.value, "stone");

    // A slash is allowed in the value but not the namespace.
    assert!(Identifier::from_str("a/b:c").is_err());
    let id = Identifier::from_str("a:b/c").unwrap();
    assert_eq!(id.value, "b/c");

    assert_eq!(
        Identifier::from_str("Upper:case").err(),
        Some(DecodeError::InvalidIdentifier)
    );
    assert!(Identifier::is_valid_namespace_char('a'));
    assert!(!Identifier::is_valid_namespace_char('/'));
    assert!(Identifier::is_valid_value_char('/'));
    assert!(!Identifier::is_valid_value_char('A'));
}

#[test]
fn frame_reading_checks_length() {
    let mut data = Vec::new();
    write_varint(3, &mut data);
    data.extend_from_slice(&[0x01, 0x02, 0x03, 0xAA]);
    let (body, end) = read_frame(&data, 0).unwrap();
    assert_eq!(body, vec![0x01, 0x02, 0x03]);
    assert_eq!(end, 4);

    let mut data = Vec::new();
    write_varint(5, &mut data);
    data.push(0x01);
    assert_eq!(read_frame(&data, 0), Err(DecodeError::UnexpectedEof));

    let mut data = Vec::new();
    write_varint(-1, &mut data);
    assert_eq!(read_frame(&data, 0), Err(DecodeError::InvalidLength));
}

#[test]
fn simulated_client_reaches_configuration() {
    // Handshaking(intent=2) -> Login(name, uuid) -> Login Success with the
    // same uuid and name -> Login Acknowledged -> Configuration.
    let registry = PacketRegistry::with_defaults();
    let mut ctx = Connection::new(ConnectionPhase::Handshaking);
    let mut world = World::new(Vec::new());
    let uuid: u128 = 0x00112233_4455_6677_8899_AABBCCDDEEFF;

    // Handshake: opcode 0x00, version 774, address, port, intent 2.
    let mut body = Vec::new();
    write_varint(0x00, &mut body);
    write_varint(774, &mut body);
    write_string("localhost", &mut body);
    write_u16(25565, &mut body);
    write_varint(2, &mut body);
    assert_eq!(
        process_frame(&registry, &mut ctx, &mut world, &body),
        Ok(DispatchOutcome::Handled)
    );
    assert_eq!(ctx.phase, ConnectionPhase::Login);

    // Login start: opcode 0x00, name, uuid.
    let mut body = Vec::new();
    write_varint(0x00, &mut body);
    write_string("steve", &mut body);
    write_uuid(uuid, &mut body);
    assert_eq!(
        process_frame(&registry, &mut ctx, &mut world, &body),
        Ok(DispatchOutcome::Handled)
    );

    // The server answered with Login Success: opcode 0x02, the same uuid
    // and name, and an empty property list.
    let frames = sent_frames(&ctx);
    assert_eq!(frames.len(), 1);
    let (opcode, payload) = open_frame(&frames[0]);
    assert_eq!(opcode, 0x02);
    let (got_uuid, p) = read_uuid(&payload, 0).unwrap();
    assert_eq!(got_uuid, uuid);
    let (got_name, p) = read_string(&payload, p).unwrap();
    assert_eq!(got_name, "steve");
    let (prop_count, p) = read_varint(&payload, p).unwrap();
    assert_eq!(prop_count, 0);
    assert_eq!(p, payload.len());

    // The session registry recorded the player.
    assert_eq!(world.players.len(), 1);
    assert_eq!(world.players[0].uuid, uuid);
    assert_eq!(world.players[0].username, "steve");

    // Login acknowledged: opcode 0x03, empty.
    let mut body = Vec::new();
    write_varint(0x03, &mut body);
    assert_eq!(
        process_frame(&registry, &mut ctx, &mut world, &body),
        Ok(DispatchOutcome::Handled)
    );
    assert_eq!(ctx.phase, ConnectionPhase::Configuration);
}

#[test]
fn ping_echoes_and_closes() {
    let registry = PacketRegistry::with_defaults();
    let mut ctx = Connection::new(ConnectionPhase::Status);
    let mut world = World::new(Vec::new());
    let mut body = Vec::new();
    write_varint(0x01, &mut body);
    nullspace::codec::write_i64(-7777, &mut body);
    assert_eq!(
        process_frame(&registry, &mut ctx, &mut world, &body),
        Ok(DispatchOutcome::Handled)
    );
    assert!(!ctx.is_alive);
    assert_eq!(ctx.outbound.len(), 2);
    match &ctx.outbound[0] {
        NetMessage::SendPacket(frame) => {
            let (opcode, payload) = open_frame(frame);
            assert_eq!(opcode, 0x01);
            let (ts, _) = nullspace::codec::read_i64(&payload, 0).unwrap();
            assert_eq!(ts, -7777);
        }
        NetMessage::Disconnect => panic!("expected the pong before the shutdown order"),
    }
    match &ctx.outbound[1] {
        NetMessage::Disconnect => {}
        NetMessage::SendPacket(_) => panic!("expected the shutdown order last"),
    }
}

#[test]
fn finish_acknowledge_enters_play_with_join_payload() {
    let registry = PacketRegistry::with_defaults();
    let mut ctx = Connection::new(ConnectionPhase::Configuration);
    let mut world = World::new(Vec::new());
    let mut body = Vec::new();
    write_varint(0x03, &mut body);
    assert_eq!(
        process_frame(&registry, &mut ctx, &mut world, &body),
        Ok(DispatchOutcome::Handled)
    );
    assert_eq!(ctx.phase, ConnectionPhase::Play);
    let frames = sent_frames(&ctx);
    assert_eq!(frames.len(), 2);
    assert_eq!(open_frame(&frames[0]).0, 0x30);
    let (opcode, payload) = open_frame(&frames[1]);
    assert_eq!(opcode, 0x46);
    // Teleport id 0, six zero doubles, two zero floats, flags 0x0001.
    let mut expected = vec![0x00];
    expected.extend_from_slice(&[0u8; 48]);
    expected.extend_from_slice(&[0u8; 8]);
    expected.extend_from_slice(&[0x00, 0x00, 0x00, 0x01]);
    assert_eq!(payload, expected);
}

#[test]
fn known_packs_array_round_trips() {
    let packs = vec![
        KnownPack {
            namespace: "minecraft".to_string(),
            id: "core".to_string(),
            version: "1.21.11".to_string(),
        },
        KnownPack {
            namespace: "custom".to_string(),
            id: "extras".to_string(),
            version: "0.1".to_string(),
        },
    ];
    let mut buf = Vec::new();
    nullspace::data_types::write_prefixed_array(&packs, &mut buf);
    let (decoded, end) = read_known_packs(&buf, 0).unwrap();
    assert_eq!(end, buf.len());
    assert_eq!(decoded.len(), 2);
    assert_eq!(decoded[0].namespace, "minecraft");
    assert_eq!(decoded[0].id, "core");
    assert_eq!(decoded[0].version, "1.21.11");
    assert_eq!(decoded[1].id, "extras");

    // A single pack also writes and reads back through the capability pair.
    let mut one = Vec::new();
    packs[0].write_to(&mut one);
    let (p, used) = <KnownPack as Packet>::decode(&one, 0).unwrap();
    assert_eq!(used, one.len());
    assert_eq!(p.namespace, "minecraft");
}

#[test]
fn known_packs_negative_count_reads_empty() {
    let mut buf = Vec::new();
    write_varint(-1, &mut buf);
    let (decoded, end) = read_known_packs(&buf, 0).unwrap();
    assert!(decoded.is_empty());
    assert_eq!(end, buf.len());
}

#[test]
fn game_profile_round_trips() {
    let profile = GameProfile {
        uuid: 7,
        username: "steve".to_string(),
        properties: vec![GameProfileProperty {
            name: "textures".to_string(),
            value: "payload".to_string(),
            signature: Some("sig".to_string()),
        }, GameProfileProperty {
            name: "plain".to_string(),
            value: "v".to_string(),
            signature: None,
        }],
    };
    let mut buf = Vec::new();
    profile.write_to(&mut buf);
    let (decoded, end) = GameProfile::decode(&buf, 0).unwrap();
    assert_eq!(end, buf.len());
    assert_eq!(decoded.uuid, 7);
    assert_eq!(decoded.username, "steve");
    assert_eq!(decoded.properties.len(), 2);
    assert_eq!(decoded.properties[0].signature.as_deref(), Some("sig"));
    assert_eq!(decoded.properties[1].signature, None);
}

#[test]
fn plugin_message_with_bad_channel_is_fatal() {
    let registry = PacketRegistry::with_defaults();
    let mut ctx = Connection::new(ConnectionPhase::Configuration);
    let mut world = World::new(Vec::new());
    let mut body = Vec::new();
    write_varint(0x02, &mut body);
    write_string("Bad:channel", &mut body);
    let r = process_frame(&registry, &mut ctx, &mut world, &body);
    assert_eq!(r, Err(ProtocolError::Decode(DecodeError::InvalidIdentifier)));
}

#[test]
fn modded_brand_is_tolerated_by_default() {
    let registry = PacketRegistry::with_defaults();
    let mut ctx = Connection::new(ConnectionPhase::Configuration);
    let mut world = World::new(Vec::new());
    let mut body = Vec::new();
    write_varint(0x02, &mut body);
    write_string("minecraft:brand", &mut body);
    write_string("forge", &mut body);
    let r = process_frame(&registry, &mut ctx, &mut world, &body);
    assert_eq!(r, Ok(DispatchOutcome::Handled));
    assert_eq!(sent_frames(&ctx).len(), 3);
}

#[test]
fn modded_brand_is_fatal_when_rejection_is_configured() {
    let registry = PacketRegistry::with_defaults();
    let mut ctx = Connection::new(ConnectionPhase::Configuration);
    let mut world = World::new(Vec::new());
    world.reject_modded = true;
    let mut body = Vec::new();
    write_varint(0x02, &mut body);
    write_string("minecraft:brand", &mut body);
    write_string("forge", &mut body);
    let r = process_frame(&registry, &mut ctx, &mut world, &body);
    assert_eq!(r, Err(ProtocolError::ModdedClient));
    assert!(ctx.outbound.is_empty());

    // A vanilla brand still goes through under the same policy.
    let mut body = Vec::new();
    write_varint(0x02, &mut body);
    write_string("minecraft:brand", &mut body);
    write_string("vanilla", &mut body);
    let r = process_frame(&registry, &mut ctx, &mut world, &body);
    assert_eq!(r, Ok(DispatchOutcome::Handled));
}
