use powercrabx::protocol::CURRENT_PROTOCOL;
use powercrabx::session::{
    DisconnectReason, InboundPacket, OutboundPacket, PackResponse, PlayStatusKind, Session,
    SessionState,
};
use powercrabx::transfer::{ChunkRequest, PackRecord, PackStore, ResourcePackDescriptor};

fn store_with(total_size: u64) -> PackStore {
    let data: Vec<u8> = (0..total_size).map(|i| (i % 253) as u8).collect();
    PackStore {
        packs: vec![PackRecord {
            descriptor: ResourcePackDescriptor {
                identifier: "pack".to_string(),
                version: "2.1".to_string(),
                total_size,
                content_hash: vec![3u8; 32],
                chunk_size: 102400,
            },
            data,
        }],
    }
}

fn rank(s: SessionState) -> u32 {
    match s {
        SessionState::Start => 0,
        SessionState::Login => 1,
        SessionState::Encryption => 2,
        SessionState::ResourcePack => 3,
        SessionState::PreSpawn => 4,
        SessionState::InGame => 5,
        SessionState::Death => 6,
    }
}

fn session_in(state: SessionState) -> Session {
    let mut s = Session::new(true);
    if rank(state) >= 1 {
        s.handle_packet(
            &InboundPacket::RequestNetworkSettings { client_network_version: CURRENT_PROTOCOL },
            &PackStore::new(),
        );
    }
    if rank(state) >= 2 {
        s.handle_packet(&InboundPacket::Login { is_xbox_auth: true }, &PackStore::new());
    }
    if rank(state) >= 3 {
        s.handle_packet(&InboundPacket::ClientToServerHandshake, &PackStore::new());
    }
    assert_eq!(s.state, state);
    assert!(!s.closed);
    s
}

#[test]
fn handshake_walks_the_states_forward() {
    let store = store_with(1000);
    let mut s = Session::new(true);
    assert_eq!(s.state, SessionState::Start);
    assert!(s.compression.is_none());

    let mut prev = rank(s.state);
    let out = s.handle_packet(
        &InboundPacket::RequestNetworkSettings { client_network_version: CURRENT_PROTOCOL },
        &store,
    );
    assert_eq!(s.state, SessionState::Login);
    assert!(s.compression.is_some());
    assert_eq!(out, vec![OutboundPacket::NetworkSettings { compression_threshold: 1 }]);
    assert!(rank(s.state) >= prev);

    prev = rank(s.state);
    let out = s.handle_packet(&InboundPacket::Login { is_xbox_auth: true }, &store);
    assert_eq!(s.state, SessionState::Encryption);
    assert!(s.key_material_derived);
    assert_eq!(out.len(), 3);
    assert_eq!(out[0], OutboundPacket::PlayStatus { status: PlayStatusKind::LoginSuccess });
    assert!(matches!(&out[1], OutboundPacket::ResourcePacksInfo { packs } if packs.is_empty()));
    assert!(matches!(&out[2], OutboundPacket::ResourcePackStack { pack_ids, experiments_on }
        if pack_ids.is_empty() && !experiments_on));
    assert!(rank(s.state) >= prev);

    prev = rank(s.state);
    let out = s.handle_packet(&InboundPacket::ClientToServerHandshake, &store);
    assert_eq!(s.state, SessionState::ResourcePack);
    assert!(s.encryption_enabled);
    assert_eq!(out.len(), 1);
    assert!(matches!(&out[0], OutboundPacket::ResourcePacksInfo { packs }
        if packs.len() == 1 && packs[0].id == "pack" && packs[0].version == "2.1"
            && packs[0].size == 1000));
    assert!(rank(s.state) >= prev);

    prev = rank(s.state);
    let out = s.handle_packet(
        &InboundPacket::ResourcePackClientResponse {
            response: PackResponse::Completed,
            downloading_packs: vec![],
        },
        &store,
    );
    assert_eq!(s.state, SessionState::PreSpawn);
    assert!(out.is_empty());
    assert!(rank(s.state) >= prev);
}

#[test]
fn refusal_sends_exactly_one_disconnect_and_closes() {
    let store = store_with(1000);
    let mut s = session_in(SessionState::ResourcePack);
    let out = s.handle_packet(
        &InboundPacket::ResourcePackClientResponse {
            response: PackResponse::Refused,
            downloading_packs: vec![],
        },
        &store,
    );
    assert_eq!(out.len(), 1);
    assert_eq!(out[0], OutboundPacket::Disconnect { reason: DisconnectReason::PackRefused });
    assert!(s.closed);
}

#[test]
fn older_client_gets_the_client_old_reason() {
    let mut s = Session::new(true);
    let out = s.handle_packet(
        &InboundPacket::RequestNetworkSettings { client_network_version: CURRENT_PROTOCOL - 1 },
        &PackStore::new(),
    );
    assert_eq!(out.len(), 2);
    assert_eq!(out[0], OutboundPacket::PlayStatus { status: PlayStatusKind::FailedClientOld });
    assert_eq!(out[1], OutboundPacket::Disconnect { reason: DisconnectReason::OutdatedClient });
    assert!(s.closed);
}

#[test]
fn newer_client_gets_the_server_old_reason() {
    let mut s = Session::new(true);
    let out = s.handle_packet(
        &InboundPacket::RequestNetworkSettings { client_network_version: CURRENT_PROTOCOL + 1 },
        &PackStore::new(),
    );
    assert_eq!(out.len(), 2);
    assert_eq!(out[0], OutboundPacket::PlayStatus { status: PlayStatusKind::FailedServerOld });
    assert_eq!(out[1], OutboundPacket::Disconnect { reason: DisconnectReason::OutdatedServer });
    assert!(s.closed);
}

#[test]
fn empty_send_packs_request_emits_nothing() {
    let store = store_with(1000);
    let mut s = session_in(SessionState::ResourcePack);
    let out = s.handle_packet(
        &InboundPacket::ResourcePackClientResponse {
            response: PackResponse::SendPacks,
            downloading_packs: vec![],
        },
        &store,
    );
    assert!(out.is_empty());
    assert!(!s.closed);
    assert_eq!(s.state, SessionState::ResourcePack);
}

#[test]
fn send_packs_announces_each_known_pack() {
    let store = store_with(250000);
    let mut s = session_in(SessionState::ResourcePack);
    let out = s.handle_packet(
        &InboundPacket::ResourcePackClientResponse {
            response: PackResponse::SendPacks,
            downloading_packs: vec!["pack".to_string(), "missing".to_string()],
        },
        &store,
    );
    assert_eq!(out.len(), 1);
    assert_eq!(
        out[0],
        OutboundPacket::ResourcePackDataInfo {
            resource_name: "pack".to_string(),
            chunk_size: 102400,
            chunk_count: 3,
            file_size: 250000,
            content_hash: vec![3u8; 32],
        }
    );
}

#[test]
fn have_all_packs_earns_the_ordered_stack() {
    let store = store_with(1000);
    let mut s = session_in(SessionState::ResourcePack);
    let out = s.handle_packet(
        &InboundPacket::ResourcePackClientResponse {
            response: PackResponse::HaveAllPacks,
            downloading_packs: vec![],
        },
        &store,
    );
    assert_eq!(out.len(), 1);
    assert_eq!(
        out[0],
        OutboundPacket::ResourcePackStack {
            pack_ids: vec!["pack".to_string()],
            experiments_on: true,
        }
    );
}

#[test]
fn chunk_request_serves_the_named_range() {
    let store = store_with(250000);
    let mut s = session_in(SessionState::ResourcePack);
    let out = s.handle_packet(
        &InboundPacket::ResourcePackChunkRequest {
            request: ChunkRequest { resource_name: "pack".to_string(), chunk_index: 2 },
        },
        &store,
    );
    assert_eq!(out.len(), 1);
    match &out[0] {
        OutboundPacket::ResourcePackChunkData {
            resource_name,
            chunk_index,
            byte_offset,
            payload,
        } => {
            assert_eq!(resource_name, "pack");
            assert_eq!(*chunk_index, 2);
            assert_eq!(*byte_offset, 204800);
            assert_eq!(payload.len(), 45200);
            assert_eq!(&payload[..], &store.packs[0].data[204800..250000]);
        },
        other => panic!("expected chunk data, got {:?}", other),
    }
    assert!(!s.closed);
}

#[test]
fn out_of_range_chunk_request_disconnects() {
    let store = store_with(250000);
    let mut s = session_in(SessionState::ResourcePack);
    let out = s.handle_packet(
        &InboundPacket::ResourcePackChunkRequest {
            request: ChunkRequest { resource_name: "pack".to_string(), chunk_index: 3 },
        },
        &store,
    );
    assert_eq!(out.len(), 1);
    assert_eq!(
        out[0],
        OutboundPacket::Disconnect { reason: DisconnectReason::ChunkRequestOutOfRange }
    );
    assert!(s.closed);
}

#[test]
fn unknown_pack_chunk_request_is_ignored() {
    let store = store_with(250000);
    let mut s = session_in(SessionState::ResourcePack);
    let out = s.handle_packet(
        &InboundPacket::ResourcePackChunkRequest {
            request: ChunkRequest { resource_name: "other".to_string(), chunk_index: 0 },
        },
        &store,
    );
    assert!(out.is_empty());
    assert!(!s.closed);
}

#[test]
fn unauthenticated_login_fails_and_closes() {
    let store = PackStore::new();
    let mut s = Session::new(true);
    s.handle_packet(
        &InboundPacket::RequestNetworkSettings { client_network_version: CURRENT_PROTOCOL },
        &store,
    );
    let out = s.handle_packet(&InboundPacket::Login { is_xbox_auth: false }, &store);
    assert_eq!(out.len(), 2);
    assert_eq!(out[0], OutboundPacket::PlayStatus { status: PlayStatusKind::LoginFailed });
    assert_eq!(out[1], OutboundPacket::Disconnect { reason: DisconnectReason::NotAuthenticated });
    assert!(s.closed);
    assert_eq!(s.state, SessionState::Login);
}

#[test]
fn optional_verification_lets_unauthenticated_clients_in() {
    let store = PackStore::new();
    let mut s = Session::new(false);
    s.handle_packet(
        &InboundPacket::RequestNetworkSettings { client_network_version: CURRENT_PROTOCOL },
        &store,
    );
    s.handle_packet(&InboundPacket::Login { is_xbox_auth: false }, &store);
    assert_eq!(s.state, SessionState::Encryption);
    assert!(!s.closed);
}

#[test]
fn session_without_login_never_advances_past_login() {
    // A client can chatter all it wants: without an accepted login the
    // session never reaches the later phases.
    let store = store_with(1000);
    let mut s = Session::new(true);
    let chatter = [
        InboundPacket::PlayerAuthInput,
        InboundPacket::Unrecognized,
        InboundPacket::ClientToServerHandshake,
        InboundPacket::ResourcePackClientResponse {
            response: PackResponse::Completed,
            downloading_packs: vec![],
        },
        InboundPacket::RequestNetworkSettings { client_network_version: CURRENT_PROTOCOL },
        InboundPacket::ResourcePackChunkRequest {
            request: ChunkRequest { resource_name: "pack".to_string(), chunk_index: 0 },
        },
        InboundPacket::Login { is_xbox_auth: false },
        InboundPacket::ClientToServerHandshake,
    ];
    for p in chatter.iter() {
        s.handle_packet(p, &store);
        assert!(rank(s.state) <= 1);
    }
}

#[test]
fn packets_with_no_handler_are_tolerated() {
    let store = PackStore::new();
    let mut s = Session::new(true);
    let out = s.handle_packet(&InboundPacket::PlayerAuthInput, &store);
    assert!(out.is_empty());
    assert_eq!(s.state, SessionState::Start);
    assert!(!s.closed);
    let out = s.handle_packet(&InboundPacket::Unrecognized, &store);
    assert!(out.is_empty());
    assert!(!s.closed);
}

#[test]
fn known_packet_kind_in_the_wrong_phase_is_ignored_silently() {
    // A login packet arriving during pack negotiation has no handler
    // there: nothing is sent, nothing changes, the connection stays up.
    let store = store_with(1000);
    let mut s = session_in(SessionState::ResourcePack);
    let out = s.handle_packet(&InboundPacket::Login { is_xbox_auth: true }, &store);
    assert!(out.is_empty());
    assert_eq!(s.state, SessionState::ResourcePack);
    assert!(!s.closed);
    // And an early pack response during login is just as silent.
    let mut s2 = Session::new(true);
    let out2 = s2.handle_packet(
        &InboundPacket::ResourcePackClientResponse {
            response: PackResponse::Refused,
            downloading_packs: vec![],
        },
        &store,
    );
    assert!(out2.is_empty());
    assert_eq!(s2.state, SessionState::Start);
    assert!(!s2.closed);
}

#[test]
fn closed_sessions_ignore_everything() {
    let store = PackStore::new();
    let mut s = Session::new(true);
    s.close();
    let out = s.handle_packet(
        &InboundPacket::RequestNetworkSettings { client_network_version: CURRENT_PROTOCOL },
        &store,
    );
    assert!(out.is_empty());
    assert_eq!(s.state, SessionState::Start);
}

#[test]
fn spawn_sequence_bootstraps_the_world_in_order() {
    let mut s = session_in(SessionState::ResourcePack);
    s.handle_packet(
        &InboundPacket::ResourcePackClientResponse {
            response: PackResponse::Completed,
            downloading_packs: vec![],
        },
        &PackStore::new(),
    );
    assert_eq!(s.state, SessionState::PreSpawn);

    let out = s.emit_spawn_sequence(2);
    assert_eq!(s.state, SessionState::InGame);
    assert_eq!(out.len(), 5 + 16);
    assert_eq!(out[0], OutboundPacket::StartGame);
    assert_eq!(out[1], OutboundPacket::ItemRegistry);
    assert_eq!(out[2], OutboundPacket::PlayerList);
    assert_eq!(out[3], OutboundPacket::UpdateAttributes);
    let mut k = 4;
    for x in -2i32..2 {
        for z in -2i32..2 {
            assert_eq!(out[k], OutboundPacket::LevelChunk { x, z });
            k += 1;
        }
    }
    assert_eq!(out[20], OutboundPacket::PlayStatus { status: PlayStatusKind::PlayerSpawn });
}

#[test]
fn spawn_sequence_with_zero_radius_sends_no_chunks() {
    let mut s = session_in(SessionState::ResourcePack);
    s.handle_packet(
        &InboundPacket::ResourcePackClientResponse {
            response: PackResponse::Completed,
            downloading_packs: vec![],
        },
        &PackStore::new(),
    );
    let out = s.emit_spawn_sequence(0);
    assert_eq!(out.len(), 5);
    assert_eq!(out[4], OutboundPacket::PlayStatus { status: PlayStatusKind::PlayerSpawn });
    assert_eq!(s.state, SessionState::InGame);
}
