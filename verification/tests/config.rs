use phalanx_node::config::{
    default_listen_addresses, validate_node, ArchivalPeer, ConfigError, ConfigWarning,
    HardwareConfig, Incoherence, NetworkConfig, NetworkInstance, NodeConfig, NodeInstance,
    ProfilePins, StorageConfig,
};
use phalanx_node::network::orchestrator::{setup_transport, subscribe_topics};

fn pins(name: &str, replicas: usize, psk: bool, stronghold: bool) -> ProfilePins {
    ProfilePins {
        name: name.to_string(),
        protocol_version: "/mesh/1.0.0".to_string(),
        max_chunk_size_bytes: 65536,
        video_topic: "mesh/video".to_string(),
        audio_topic: "mesh/audio".to_string(),
        control_topic: "mesh/control".to_string(),
        revocation_topic: "mesh/revocation".to_string(),
        require_psk: psk,
        target_replica_count: replicas,
        has_stronghold_role: stronghold,
    }
}

fn solo() -> ProfilePins {
    pins("solo_device", 0, false, false)
}

fn community() -> ProfilePins {
    pins("community_with_stronghold", 1, false, true)
}

fn default_network() -> NetworkConfig {
    NetworkConfig::from_profile(&solo(), &NetworkInstance::with_symbols(1024, 1))
}

fn peer(address: &str) -> ArchivalPeer {
    ArchivalPeer { address: address.to_string(), stronghold_did: None }
}

#[test]
fn archival_peer_extracts_peer_id_from_multiaddr() {
    let p = peer("/ip4/10.0.0.5/udp/4001/quic-v1/p2p/12D3KooWStronghold");
    assert_eq!(p.peer_id().as_deref(), Some("12D3KooWStronghold"));
}

#[test]
fn archival_peer_peer_id_is_none_without_p2p_component() {
    let p = peer("/ip4/10.0.0.5/udp/4001/quic-v1");
    assert!(p.peer_id().is_none());
}

#[test]
fn archival_peer_peer_id_ignores_trailing_protocols() {
    let p = peer("/ip4/1.2.3.4/tcp/4001/p2p/12D3KooWRelay/p2p-circuit");
    assert_eq!(p.peer_id().as_deref(), Some("12D3KooWRelay"));
}

#[test]
fn the_last_marker_names_the_peer() {
    let p = peer("/ip4/1.2.3.4/p2p/12D3KooWRelay/p2p-circuit/p2p/12D3KooWTarget");
    assert_eq!(p.peer_id().as_deref(), Some("12D3KooWTarget"));
    assert!(peer("/ip4/1.2.3.4/p2p/").peer_id().is_none());
    assert!(peer("/ip4/1.2.3.4/p2p//x").peer_id().is_none());
    assert!(peer("").peer_id().is_none());
    assert!(peer("/p2p").peer_id().is_none());
}

#[test]
fn dial_peers_merges_bootstrap_and_archival_deduped() {
    let mut net = default_network();
    net.bootstrap_peers = vec!["/ip4/1.1.1.1/tcp/1".to_string()];
    net.archival_peers = vec![
        peer("/ip4/2.2.2.2/tcp/2/p2p/12D3KooWA"),
        peer("/ip4/1.1.1.1/tcp/1"),
    ];
    assert_eq!(
        net.dial_peers(),
        vec![
            "/ip4/1.1.1.1/tcp/1".to_string(),
            "/ip4/2.2.2.2/tcp/2/p2p/12D3KooWA".to_string(),
        ]
    );
}

#[test]
fn dial_peers_repeats_no_bootstrap_address() {
    let mut net = default_network();
    net.bootstrap_peers = vec![
        "/ip4/1.1.1.1/tcp/1".to_string(),
        "/ip4/3.3.3.3/tcp/3".to_string(),
        "/ip4/1.1.1.1/tcp/1".to_string(),
    ];
    net.archival_peers = vec![];
    assert_eq!(
        net.dial_peers(),
        vec!["/ip4/1.1.1.1/tcp/1".to_string(), "/ip4/3.3.3.3/tcp/3".to_string()]
    );
}

#[test]
fn default_projects_canonical_topics_and_pinned_wire_values() {
    let net = default_network();
    assert_eq!(net.video_topic, "mesh/video");
    assert_eq!(net.audio_topic, "mesh/audio");
    assert_eq!(net.control_topic, "mesh/control");
    assert_eq!(net.revocation_topic, "mesh/revocation");
    assert_eq!(net.protocol_version, "/mesh/1.0.0");
    assert_eq!(net.max_chunk_size_bytes, 65536);
}

#[test]
fn solo_device_pins_zero_replicas_community_pins_one() {
    let (solo_config, _) = NodeConfig::for_profile(&solo(), 1024, 1).unwrap();
    let solo_config = solo_config.into_inner();
    assert_eq!(solo_config.network.target_replica_count, 0);
    assert!(!solo_config.network.require_psk);

    let (community_config, warnings) = NodeConfig::for_profile(&community(), 1024, 1).unwrap();
    assert_eq!(community_config.get().network.target_replica_count, 1);
    assert_eq!(warnings, vec![ConfigWarning::QuorumOutOfReach]);
}

#[test]
fn high_risk_pins_psk_required() {
    let high_risk = pins("high_risk_cross_border", 2, true, true);
    let (cfg, _) = NodeConfig::for_profile(&high_risk, 1024, 1).unwrap();
    let cfg = cfg.into_inner();
    assert!(cfg.network.require_psk);
    assert_eq!(cfg.network.target_replica_count, 2);
}

#[test]
fn undialable_archival_peer_is_a_hard_incoherence() {
    let mut instance = NodeInstance::with_symbols(1024, 1);
    instance.network.archival_peers = vec![peer("/ip4/10.0.0.5/udp/4001/quic-v1")];
    let result = NodeConfig::assemble(&community(), &instance);
    assert!(matches!(result, Err(Incoherence::UndialableArchivalPeer { .. })));
}

#[test]
fn the_first_undialable_peer_is_reported() {
    let mut instance = NodeInstance::with_symbols(1024, 1);
    instance.network.archival_peers = vec![
        peer("/ip4/10.0.0.5/p2p/12D3KooWGood"),
        peer("/ip4/10.0.0.6"),
        peer("/ip4/10.0.0.7"),
    ];
    match NodeConfig::assemble(&community(), &instance) {
        Err(Incoherence::UndialableArchivalPeer { address }) => {
            assert_eq!(address, "/ip4/10.0.0.6")
        }
        Ok(_) => panic!("the second peer cannot be dialed"),
    }
}

#[test]
fn dialable_archival_peer_assembles() {
    let mut instance = NodeInstance::with_symbols(1024, 1);
    instance.network.archival_peers =
        vec![peer("/ip4/10.0.0.5/udp/4001/quic-v1/p2p/12D3KooWStronghold")];
    assert!(NodeConfig::assemble(&community(), &instance).is_ok());
}

#[test]
fn suspicious_values_are_reported_in_order() {
    let mut instance = NodeInstance::with_symbols(65537, 1);
    instance.network.archival_peers = vec![peer("/ip4/1.1.1.1/p2p/12D3KooWA")];
    instance.storage.max_foreign_per_owner_bytes = 600_000_000;
    let wanting = pins("solo_device", 2, false, false);
    let (_, warnings) = NodeConfig::assemble(&wanting, &instance).unwrap();
    assert_eq!(
        warnings,
        vec![
            ConfigWarning::QuorumOutOfReach,
            ConfigWarning::NoStrongholdRole,
            ConfigWarning::CapsOutOfOrder,
            ConfigWarning::BundleTooLarge,
        ]
    );
}

#[test]
fn a_bundle_beyond_all_numbers_is_not_reported() {
    let mut instance = NodeInstance::with_symbols(usize::MAX, 2);
    instance.storage.max_foreign_storage_bytes = 500_000_000;
    let config = NodeConfig::from_parts(&solo(), &instance);
    assert_eq!(validate_node(&config, false).unwrap(), vec![]);
}

#[test]
fn validated_clamps_zero_fps_to_one() {
    let cfg = HardwareConfig { camera_fps: 0, audio_sample_rate: 16000, audio_channels: 1 };
    assert_eq!(cfg.camera_fps, 0);
    assert_eq!(cfg.validated().camera_fps, 1);
}

#[test]
fn validated_clamps_sample_rate_above_maximum() {
    let cfg =
        HardwareConfig { camera_fps: 30, audio_sample_rate: 5_000_000, audio_channels: 2 };
    assert!(cfg.validated().audio_sample_rate <= 192_000);
}

#[test]
fn validated_clamps_excessive_channel_count_to_maximum() {
    let cfg = HardwareConfig { camera_fps: 30, audio_sample_rate: 48000, audio_channels: 64 };
    assert_eq!(cfg.validated().audio_channels, 8);
}

#[test]
fn validated_preserves_valid_values_unchanged() {
    let cfg = HardwareConfig { camera_fps: 30, audio_sample_rate: 48000, audio_channels: 2 };
    let v = cfg.validated();
    assert_eq!(v.camera_fps, 30);
    assert_eq!(v.audio_sample_rate, 48_000);
    assert_eq!(v.audio_channels, 2);
    assert_eq!(v.validated(), v);
}

#[test]
fn defaults_are_the_documented_ones() {
    let storage = StorageConfig::default();
    assert_eq!(storage.vault_path, "./sim_vault");
    assert_eq!(storage.max_video_buffer, 100);
    assert_eq!(storage.max_audio_buffer, 100);
    assert_eq!(storage.max_storage_bytes, 1_000_000_000);
    assert_eq!(storage.max_foreign_storage_bytes, 500_000_000);
    assert_eq!(storage.max_foreign_per_owner_bytes, 50_000_000);
    assert_eq!(storage.evidence_ttl_secs, 300);
    let hardware = HardwareConfig::default();
    assert_eq!(hardware.camera_fps, 10);
    assert_eq!(hardware.audio_sample_rate, 16_000);
    assert_eq!(hardware.audio_channels, 1);
    assert_eq!(
        default_listen_addresses(),
        vec!["/ip4/0.0.0.0/udp/0/quic-v1".to_string(), "/ip4/0.0.0.0/tcp/0".to_string()]
    );
}

#[test]
fn config_errors_say_what_is_wrong() {
    let text = |e: ConfigError| e.message("detail");
    assert_eq!(text(ConfigError::NotFound("x".into())), "Configuration not found: x");
    assert_eq!(text(ConfigError::ParseError("x".into())), "Failed to parse configuration: x");
    assert_eq!(
        text(ConfigError::PermissionDenied("x".into())),
        "Permission denied reading config: x"
    );
    let incoherent = ConfigError::Incoherent(Incoherence::UndialableArchivalPeer {
        address: "/ip4/10.0.0.6".into(),
    });
    assert_eq!(text(incoherent), "Incoherent configuration: detail");
}

#[test]
fn subscribe_list_covers_every_inbound_message_class() {
    let network = default_network();
    let topics = subscribe_topics(&network);
    for class in [
        &network.video_topic,
        &network.audio_topic,
        &network.control_topic,
        &network.revocation_topic,
    ] {
        assert!(topics.contains(class), "subscribe list missing {class}");
    }
    assert_eq!(topics.len(), 4);
}

#[test]
fn transport_plan_dials_custody_peers() {
    let mut instance = NodeInstance::with_symbols(1024, 1);
    instance.network.archival_peers = vec![peer("/ip4/2.2.2.2/p2p/12D3KooWA")];
    let config = NodeConfig::from_parts(&community(), &instance);
    let plan = setup_transport(&config, Some([7u8; 32]));
    assert_eq!(plan.dht_db_path, "./sim_vault/dht_store.redb");
    assert_eq!(plan.bootstrap_peers, vec!["/ip4/2.2.2.2/p2p/12D3KooWA".to_string()]);
    assert_eq!(plan.psk, Some([7u8; 32]));
    assert!(!plan.require_psk);
    assert!(plan.kademlia_filter_both);
    assert_eq!(plan.protocol_version, "/mesh/1.0.0");
    assert_eq!(plan.max_chunk_size_bytes, 65536);
    assert_eq!(plan.listen_addresses, default_listen_addresses());
}
