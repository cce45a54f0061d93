use phalanx_node::actors::archive_coordinator::{ArchiveCoordinator, CustodyReceipt};
use phalanx_node::actors::archive_grant::mint_export_grant;
use phalanx_node::actors::canary_supervisor::{
    AlertStep, CanaryAction, CanaryAlert, CanaryCommand, CanarySupervisor,
};
use phalanx_node::actors::eclipse_router::AdmitOutcome;
use phalanx_node::actors::egress::{
    EgressAction, EgressActor, EgressCommand, PendingEgress, ANNOUNCE_DEDUP_WINDOW_NS,
    FIRST_RETRY_DELAY_MS, MAX_PENDING_RETRIES,
};
use phalanx_node::actors::fleet::{
    background_tasks, goes_on_waiting, spawn_shield_wall, Task, TaskEnd,
};
use phalanx_node::actors::media_egress::{
    bundles, MediaClass, MediaEgressActor, MediaStep, RetryAction, RetryOutcome, SealOutcome,
};
use phalanx_node::actors::mesh_policy::{
    community_keys, current_community_ids, sealed_payload, CommunityId,
};
use phalanx_node::actors::meshsentinel::{
    MeshSentinel, NetworkEvent, ProvidersTenant, SalvageReply, SentinelAction, SentinelCommand,
    SentinelReply,
};
use phalanx_node::actors::recording_session::{
    ProximityWitness, RecordingSessionState, TransportClass,
};
use phalanx_node::actors::revocation::{InboundToken, RevocationActor, RevocationReply};
use phalanx_node::actors::trust_manager::{TrustManager, TrustUpdate};
use phalanx_node::actors::vitals_actor::{Attempt, HeartbeatStep, VitalsActor};
use phalanx_node::config::{ArchivalPeer, NodeConfig, NodeInstance, ProfilePins};
use phalanx_node::evidence::{Envelope, Offense};
use phalanx_node::persistence::kademlia::{
    owner_of, owner_prefix, DhtRecordKey, InstantShift, ProviderEntry, ProviderRow, RecordRow,
    RecordState, RedbStore, SetChange, StoreError, ValueCheck,
};
use phalanx_node::persistence::outbound::OutboundQueue;

fn s(t: &str) -> String {
    t.to_string()
}

// --- egress ---

fn response(channel: &str) -> EgressCommand {
    EgressCommand::Dispatch { channel_id: s(channel), response: vec![1] }
}

#[test]
fn failed_responses_are_tried_thrice() {
    let mut e = EgressActor::new(vec![], 0);
    let (action, exit) = e.handle_command(response("c"), 0);
    assert!(!exit);
    match action {
        EgressAction::Send { channel_id, response } => e.queue_failed(channel_id, response, 100),
        other => panic!("expected a send, got {other:?}"),
    }
    assert_eq!(e.pending[0].attempt_count, 1);
    assert_eq!(e.pending[0].next_attempt, 100 + FIRST_RETRY_DELAY_MS);
    assert_eq!(e.due(1_099), vec![false]);
    assert_eq!(e.due(1_100), vec![true]);
    e.process_pending(1_099, &vec![false]);
    assert_eq!(e.pending[0].attempt_count, 1);
    e.process_pending(1_100, &vec![false]);
    assert_eq!(e.pending[0].attempt_count, 2);
    assert_eq!(e.pending[0].next_attempt, 1_100 + 2_000);
    e.process_pending(3_100, &vec![false]);
    assert!(e.pending.is_empty());
}

#[test]
fn salvaged_responses_may_be_untried() {
    let pending =
        PendingEgress { channel_id: s("c"), response: vec![], attempt_count: 0, next_attempt: 9 };
    let mut e = EgressActor::new(vec![pending], 0);
    e.process_pending(10, &vec![false]);
    assert_eq!(e.pending[0].attempt_count, 1);
    assert_eq!(e.pending[0].next_attempt, 10 + 1_000);
}

#[test]
fn delivered_responses_leave_the_queue() {
    let mut e = EgressActor::new(vec![], 0);
    e.queue_failed(s("a"), vec![], 0);
    e.queue_failed(s("b"), vec![], 0);
    e.process_pending(5_000, &vec![true, false]);
    assert_eq!(e.pending.len(), 1);
    assert_eq!(e.pending[0].channel_id, "b");
}

#[test]
fn retry_queue_is_bounded() {
    let mut e = EgressActor::new(vec![], 0);
    for n in 0..(MAX_PENDING_RETRIES + 5) {
        e.queue_failed(n.to_string(), vec![], 0);
        assert!(e.pending.len() <= MAX_PENDING_RETRIES);
    }
    assert_eq!(e.pending.len(), MAX_PENDING_RETRIES);
    assert_eq!(e.pending[0].channel_id, "5");
}

#[test]
fn recordings_are_announced_once_per_window() {
    let mut e = EgressActor::new(vec![], 0);
    let mut announce = |at: u64| {
        let (action, _) = e.handle_command(EgressCommand::AnnounceRecording(s("r")), at);
        matches!(action, EgressAction::Announce(_))
    };
    assert!(announce(1));
    assert!(!announce(2));
    assert!(!announce(ANNOUNCE_DEDUP_WINDOW_NS));
    assert!(announce(ANNOUNCE_DEDUP_WINDOW_NS + 1));
}

#[test]
fn draining_hands_over_the_queue_and_ends() {
    let pending =
        PendingEgress { channel_id: s("c"), response: vec![], attempt_count: 1, next_attempt: 9 };
    let mut e = EgressActor::new(vec![pending], 0);
    let (action, exit) = e.handle_command(EgressCommand::DrainForSalvage, 0);
    assert!(exit);
    match action {
        EgressAction::Salvage(list) => assert_eq!(list[0].channel_id, "c"),
        other => panic!("expected the queue, got {other:?}"),
    }
    assert!(e.pending.is_empty());
}

#[test]
fn other_commands_go_to_the_network() {
    let mut e = EgressActor::new(vec![], 0);
    let mut act = |c: EgressCommand| e.handle_command(c, 0).0;
    assert!(matches!(act(EgressCommand::FindProviders(s("r"))), EgressAction::FindProviders(_)));
    assert!(matches!(
        act(EgressCommand::RequestShards { target: s("t"), request: vec![] }),
        EgressAction::RequestShards { .. }
    ));
    assert!(matches!(
        act(EgressCommand::PushArchive { target: s("t"), request: vec![] }),
        EgressAction::PushArchive { .. }
    ));
    assert!(matches!(act(EgressCommand::DisconnectPeer(s("p"))), EgressAction::Disconnect(_)));
    assert!(matches!(act(EgressCommand::ReBootstrap(vec![])), EgressAction::ReBootstrap(_)));
    assert!(matches!(
        act(EgressCommand::PublishRevocation(vec![])),
        EgressAction::PublishRevocation(_)
    ));
    assert!(matches!(
        act(EgressCommand::WithdrawProvider(s("r"))),
        EgressAction::WithdrawProvider(_)
    ));
    assert!(matches!(
        act(EgressCommand::AnnounceTombstone { recording_id: s("r"), payload: vec![4] }),
        EgressAction::PublishTombstone { data } if data == vec![4]
    ));
    assert!(matches!(
        act(EgressCommand::PublishMesh { topic: s("t"), data: vec![] }),
        EgressAction::Publish { .. }
    ));
}

// --- media ---

fn media() -> MediaEgressActor {
    let queue = OutboundQueue::recover(s("/wal"), vec![]);
    MediaEgressActor::new(s("v"), s("a"), 4, [9u8; 32], queue)
}

#[test]
fn media_must_be_encrypted() {
    let mut m = media();
    assert_eq!(m.begin_seal(MediaClass::Video, true, false), None);
    assert_eq!(m.begin_seal(MediaClass::Video, false, true), None);
    assert_eq!(m.begin_seal(MediaClass::Audio, true, false), None);
    assert_eq!(m.begin_seal(MediaClass::Audio, false, true), Some(None));
    assert_eq!(m.begin_seal(MediaClass::Proximity, false, false), Some(None));
    assert_eq!(m.payload_key(&None), [9u8; 32]);
    assert_eq!(m.payload_key(&Some([1u8; 32])), [1u8; 32]);
}

#[test]
fn envelopes_chain_within_their_class() {
    let mut m = media();
    assert_eq!(m.begin_seal(MediaClass::Video, true, true), Some(None));
    match m.after_seal(MediaClass::Video, SealOutcome::Sealed(vec![1])) {
        MediaStep::PersistAndPublish { shard_id, topic } => {
            assert_eq!(shard_id, 0);
            assert_eq!(topic, "v");
        }
        other => panic!("expected a publication, got {other:?}"),
    }
    assert_eq!(m.begin_seal(MediaClass::Audio, true, true), Some(None));
    match m.after_seal(MediaClass::Audio, SealOutcome::Sealed(vec![2])) {
        MediaStep::PersistAndPublish { shard_id, topic } => {
            assert_eq!(shard_id, 1);
            assert_eq!(topic, "a");
        }
        other => panic!("expected a publication, got {other:?}"),
    }
    assert_eq!(m.begin_seal(MediaClass::Video, true, true), Some(Some(vec![1])));
    assert!(matches!(m.after_seal(MediaClass::Video, SealOutcome::Failed), MediaStep::Drop));
    assert_eq!(m.begin_seal(MediaClass::Video, true, true), Some(None));
    assert!(matches!(
        m.after_seal(MediaClass::Video, SealOutcome::Unserializable(vec![3])),
        MediaStep::Persist
    ));
    assert_eq!(m.begin_seal(MediaClass::Video, true, true), Some(Some(vec![3])));
    assert_eq!(m.next_shard_id, 2);
}

#[test]
fn symbols_are_bundled_without_gaps() {
    assert_eq!(bundles(10, 4), vec![(0, 4), (4, 8), (8, 10)]);
    assert_eq!(bundles(8, 4), vec![(0, 4), (4, 8)]);
    assert_eq!(bundles(0, 4), vec![]);
}

#[test]
fn retried_media_is_stored_or_removed() {
    let mut m = media();
    let entry = m.outbound_queue.enqueue(s("v"), vec![1], 0).unwrap();
    match MediaEgressActor::settle_retry(entry, RetryOutcome::Failed, 50) {
        RetryAction::Store(kept) => {
            assert_eq!(kept.attempts, 1);
            assert_eq!(kept.last_attempt, Some(50));
            assert!(matches!(
                MediaEgressActor::settle_retry(kept, RetryOutcome::Published, 60),
                RetryAction::Remove(id) if id.0 == 0
            ));
        }
        other => panic!("expected another round, got {other:?}"),
    }
    let mut worn = m.outbound_queue.enqueue(s("v"), vec![1], 0).unwrap();
    worn.attempts = 9;
    assert!(matches!(
        MediaEgressActor::settle_retry(worn, RetryOutcome::Failed, 50),
        RetryAction::Remove(id) if id.0 == 1
    ));
    let broken = m.outbound_queue.enqueue(s("v"), vec![1], 0).unwrap();
    assert!(matches!(
        MediaEgressActor::settle_retry(broken, RetryOutcome::Undecodable, 50),
        RetryAction::Remove(_)
    ));
}

#[test]
fn media_ends_when_both_sources_are_gone() {
    let mut m = media();
    assert!(m.is_done(true, true, true));
    assert!(!m.is_done(false, true, false));
    assert!(m.is_done(false, false, false));
    let entry = m.outbound_queue.enqueue(s("v"), vec![1], 0).unwrap();
    m.outbound_queue.enqueue_stored(entry);
    assert!(!m.is_done(false, false, false));
}

// --- the record store ---

#[test]
fn records_must_be_owned() {
    let owned = ValueCheck::Decoded { owned: true };
    assert_eq!(RedbStore::put(&[1], owned), Ok(()));
    assert_eq!(RedbStore::put(&[], owned), Err(StoreError::ValueTooLarge));
    assert_eq!(
        RedbStore::put(&[1], ValueCheck::Decoded { owned: false }),
        Err(StoreError::ValueTooLarge)
    );
    assert_eq!(RedbStore::put(&[1], ValueCheck::Undecodable), Err(StoreError::ValueTooLarge));
    assert!(RedbStore::verify_record_signature(&[1], owned));
}

#[test]
fn keys_start_with_their_owner() {
    assert_eq!(owner_of("zOwner:r1:2"), "zOwner");
    assert_eq!(owner_of("zOwner"), "zOwner");
    assert_eq!(owner_prefix(b"zOwner:r1"), "zOwner");
    assert_eq!(owner_prefix(&[b'a', 0xFF, b':', b'b']), "a\u{FFFD}");
    let key = DhtRecordKey::new(vec![1, 2]);
    assert_eq!(key.as_bytes(), [1, 2]);
}

fn row(key: u8, state: RecordState, kind: &str) -> RecordRow {
    RecordRow { key: vec![key], state, kind: s(kind) }
}

#[test]
fn the_live_are_retained() {
    let entry = |id: &str, expired| ProviderEntry { network_id: s(id), expiration: 1, expired };
    let plan = RedbStore::prune_expired_blocking(
        vec![
            row(1, RecordState::Live, "k"),
            row(2, RecordState::Expired, "k"),
            row(3, RecordState::Corrupt, "k"),
        ],
        vec![
            ProviderRow { key: vec![4], providers: None },
            ProviderRow { key: vec![5], providers: Some(vec![entry("a", true)]) },
            ProviderRow {
                key: vec![6],
                providers: Some(vec![entry("a", true), entry("b", false)]),
            },
            ProviderRow { key: vec![7], providers: Some(vec![entry("c", false)]) },
        ],
    );
    assert_eq!(plan.delete_records, vec![vec![2], vec![3]]);
    assert_eq!(plan.delete_providers, vec![vec![4], vec![5]]);
    assert_eq!(plan.update_providers.len(), 1);
    assert_eq!(plan.update_providers[0].key, vec![6]);
    assert_eq!(plan.update_providers[0].providers[0].network_id, "b");
    assert_eq!(plan.pruned_count, 4);
}

#[test]
fn second_prune_changes_nothing() {
    let live = ProviderEntry { network_id: s("b"), expiration: 1, expired: false };
    let dead = ProviderEntry { network_id: s("a"), expiration: 1, expired: true };
    let first = RedbStore::prune_expired_blocking(
        vec![row(1, RecordState::Live, "k"), row(2, RecordState::Expired, "k")],
        vec![ProviderRow { key: vec![6], providers: Some(vec![dead, live]) }],
    );
    assert_eq!(first.pruned_count, 1);
    let left = first.update_providers.into_iter().next().unwrap();
    let second = RedbStore::prune_expired_blocking(
        vec![row(1, RecordState::Live, "k")],
        vec![ProviderRow { key: left.key, providers: Some(left.providers) }],
    );
    assert!(second.delete_records.is_empty());
    assert!(second.delete_providers.is_empty());
    assert!(second.update_providers.is_empty());
    assert_eq!(second.pruned_count, 0);
}

#[test]
fn metrics_count_live_records_by_kind() {
    let metrics = RedbStore::get_storage_metrics(&vec![
        row(1, RecordState::Live, "manifest"),
        row(2, RecordState::Live, "manifest"),
        row(3, RecordState::Expired, "manifest"),
        row(4, RecordState::Expired, "grant"),
    ]);
    assert_eq!(metrics.get(&s("manifest")), Some(&2));
    assert_eq!(metrics.get(&s("grant")), None);
    assert!(RedbStore::is_visible(RecordState::Live));
    assert!(!RedbStore::is_visible(RecordState::Expired));
    assert!(!RedbStore::is_visible(RecordState::Corrupt));
}

#[test]
fn providers_live_for_a_day_by_default() {
    let store = RedbStore { local_peer_id: s("me") };
    assert!(store.is_self(&s("me")));
    assert!(!store.is_self(&s("you")));
    assert_eq!(RedbStore::provider_lifetime(None), 86_400);
    assert_eq!(RedbStore::provider_lifetime(Some(5)), 5);
    assert_eq!(RedbStore::add_provider(true), Ok(()));
    assert_eq!(RedbStore::add_provider(false), Err(StoreError::MaxProvidedKeys));
    assert_eq!(RedbStore::unix_to_instant(10, 4), InstantShift::Ahead(6));
    assert_eq!(RedbStore::unix_to_instant(4, 10), InstantShift::Behind(6));
}

#[test]
fn emptied_provider_sets_are_deleted() {
    assert!(matches!(RedbStore::remove_provider(false, vec![1]), SetChange::Unchanged));
    assert!(matches!(RedbStore::remove_provider(true, vec![]), SetChange::Delete));
    assert!(matches!(RedbStore::remove_provider(true, vec![1]), SetChange::Store(b) if b == [1]));
}

// --- the canary ---

fn contribution(verified: bool) -> CanaryCommand {
    CanaryCommand::RegisterContribution {
        origin: s("p"),
        envelope_did: s("did"),
        recording_id: s("r"),
        verified,
    }
}

#[test]
fn idle_canary_is_silent() {
    let mut c = CanarySupervisor::new();
    match c.handle_command(contribution(true)) {
        CanaryAction::Contributed { learned, watch } => {
            assert_eq!(learned, Some((s("p"), s("did"))));
            assert!(watch.is_none());
        }
        other => panic!("expected a contribution, got {other:?}"),
    }
    assert!(matches!(
        c.handle_command(CanaryCommand::PeerDisconnected { peer: s("p"), watching: true }),
        CanaryAction::Nothing
    ));
}

#[test]
fn active_canary_watches_contributors() {
    let mut c = CanarySupervisor::new();
    let started = CanaryCommand::RecordingStarted { recording_id: s("r") };
    assert!(matches!(c.handle_command(started), CanaryAction::Clear));
    match c.handle_command(contribution(true)) {
        CanaryAction::Contributed { watch: Some(w), .. } => {
            assert_eq!(w.origin, "p");
            assert_eq!(w.did, "did");
            assert_eq!(w.recording_id, "r");
        }
        other => panic!("expected a watch, got {other:?}"),
    }
    match c.handle_command(contribution(false)) {
        CanaryAction::Contributed { learned, watch } => {
            assert!(learned.is_none());
            assert!(watch.is_none());
        }
        other => panic!("expected a contribution, got {other:?}"),
    }
    let gone = |watching| CanaryCommand::PeerDisconnected { peer: s("p"), watching };
    assert!(matches!(c.handle_command(gone(true)), CanaryAction::Suspect(_)));
    assert!(matches!(c.handle_command(gone(false)), CanaryAction::Nothing));
    assert!(matches!(
        c.handle_command(CanaryCommand::OnPeerReconnected { peer: s("p") }),
        CanaryAction::Reconnected(_)
    ));
    assert!(matches!(c.handle_command(CanaryCommand::RecordingStopped), CanaryAction::Clear));
    assert!(!c.recording_active);
}

#[test]
fn alerts_save_what_they_can() {
    let mut alert = CanaryAlert {
        silent_peers: vec![s("p"), s("q")],
        recordings_at_risk: vec![s("r")],
        peers_remaining: 0,
    };
    let steps = CanarySupervisor::handle_canary_alert(&alert);
    assert!(matches!(&steps[0], AlertStep::FindProviders(r) if r == "r"));
    assert!(matches!(steps[1], AlertStep::EmergencySalvage));
    assert!(matches!(steps[2], AlertStep::Broadcast { silent_count: 2 }));
    assert_eq!(steps.len(), 3);
    alert.peers_remaining = 1;
    assert_eq!(CanarySupervisor::handle_canary_alert(&alert).len(), 2);
}

#[test]
fn broadcast_names_nobody() {
    let alert = |silent: &[&str], at_risk: &[&str]| CanaryAlert {
        silent_peers: silent.iter().map(|p| s(p)).collect(),
        recordings_at_risk: at_risk.iter().map(|r| s(r)).collect(),
        peers_remaining: 3,
    };
    let last = |a: &CanaryAlert| match CanarySupervisor::handle_canary_alert(a).pop() {
        Some(AlertStep::Broadcast { silent_count }) => silent_count,
        other => panic!("expected a broadcast, got {other:?}"),
    };
    assert_eq!(last(&alert(&["a", "b"], &["r"])), last(&alert(&["x", "y"], &[])));
}

#[test]
fn alerts_are_encoded_for_their_communities() {
    assert_eq!(CanarySupervisor::alert_plaintext(2, 300), vec![2, 0xAC, 0x02]);
    let keys = CanarySupervisor::alert_keys(&vec![CommunityId([5u8; 32])]);
    assert_eq!(
        keys,
        vec![blake3::derive_key("phalanx.canary.v1.community-alert", &[5u8; 32])]
    );
}

#[test]
fn keyset_is_the_union() {
    let ids = |list: &[u8]| -> Vec<CommunityId> {
        list.iter().map(|b| CommunityId([*b; 32])).collect()
    };
    let union = current_community_ids(&ids(&[1, 2]), &ids(&[2, 3]));
    let raw: Vec<u8> = union.iter().map(|c| c.0[0]).collect();
    assert_eq!(raw, vec![1, 2, 3]);
    assert_eq!(
        community_keys("some context", &ids(&[7])),
        vec![blake3::derive_key("some context", &[7u8; 32])]
    );
    assert_eq!(sealed_payload(vec![1, 2], &vec![3]), vec![1, 2, 3]);
}

// --- heartbeats ---

#[test]
fn heartbeats_tell_the_free_space() {
    let v = VitalsActor { max_storage_bytes: 10 * 1_048_576 };
    let communities = vec![CommunityId([1u8; 32])];
    let plan = v.publish_tick(3 * 1_048_576 + 1, 5_000, &communities);
    assert_eq!(plan.storage_remaining_mb, 6);
    assert_eq!(plan.heartbeat_ms, 5_000);
    assert_eq!(
        plan.keys,
        vec![blake3::derive_key("phalanx.heartbeat.v1.community", &[1u8; 32])]
    );
    assert_eq!(v.publish_tick(u64::MAX, 1, &communities).storage_remaining_mb, 0);
    let huge = VitalsActor { max_storage_bytes: u64::MAX };
    assert_eq!(huge.publish_tick(0, 1, &communities).storage_remaining_mb, u32::MAX as u64);
    assert!(VitalsActor::has_audience(&communities));
    assert!(!VitalsActor::has_audience(&vec![]));
}

#[test]
fn spoofed_heartbeats_are_dropped() {
    let origin = s("p");
    let verdict = |attempts| VitalsActor::handle_inbound(&origin, &attempts);
    let message = |sender: &str| Attempt::Message { sender: s(sender) };
    assert_eq!(verdict(vec![message("p")]), HeartbeatStep::Register);
    assert_eq!(verdict(vec![message("q")]), HeartbeatStep::Drop);
    assert_eq!(verdict(vec![Attempt::WrongKey, message("p")]), HeartbeatStep::Register);
    assert_eq!(verdict(vec![Attempt::Undecodable, message("p")]), HeartbeatStep::Drop);
    assert_eq!(verdict(vec![message("q"), message("p")]), HeartbeatStep::Drop);
    assert_eq!(verdict(vec![Attempt::WrongKey]), HeartbeatStep::Drop);
    assert_eq!(verdict(vec![]), HeartbeatStep::Drop);
    assert_eq!(VitalsActor::on_attempt(&origin, &Attempt::WrongKey), HeartbeatStep::TryNext);
}

#[test]
fn short_frames_are_no_heartbeats() {
    assert_eq!(VitalsActor::split_frame(&[0u8; 39]), None);
    let (nonce, ciphertext) = VitalsActor::split_frame(&[7u8; 40]).unwrap();
    assert_eq!(nonce.len(), 24);
    assert_eq!(ciphertext.len(), 16);
}

// --- custody ---

fn stronghold(address: &str, did: Option<&str>) -> ArchivalPeer {
    ArchivalPeer { address: s(address), stronghold_did: did.map(s) }
}

#[test]
fn recordings_are_staged_once() {
    let mut c = ArchiveCoordinator::new();
    assert!(!c.begin_staging(&s("r"), &vec![]));
    let peers = vec![stronghold("/p2p/A", None)];
    assert!(c.begin_staging(&s("r"), &peers));
    assert!(!c.begin_staging(&s("r"), &peers));
    assert!(c.begin_staging(&s("q"), &peers));
}

#[test]
fn coherent_peers_are_all_pushed_to() {
    let peers = vec![
        stronghold("/ip4/1.1.1.1/p2p/A", Some("did:a")),
        stronghold("/ip4/2.2.2.2", Some("did:b")),
        stronghold("/ip4/3.3.3.3/p2p/C", None),
    ];
    let list = ArchiveCoordinator::pushes(&peers, 3);
    assert_eq!(list.len(), 2);
    assert_eq!(list[0].target, "A");
    assert_eq!(list[0].grant_to.as_deref(), Some("did:a"));
    assert_eq!(list[1].target, "C");
    assert_eq!(list[1].grant_to, None);
    assert!(ArchiveCoordinator::pushes(&peers, 0).is_empty());
}

#[test]
fn verified_receipts_are_kept() {
    let mut c = ArchiveCoordinator::new();
    let receipt = |held_until| CustodyReceipt {
        recording_id: s("r"),
        replica_did: s("did:a"),
        held_until,
    };
    c.record_receipt(false, receipt(1));
    assert!(c.custody.get(&s("r")).is_none());
    c.record_receipt(true, receipt(2));
    c.record_receipt(true, receipt(3));
    assert_eq!(c.custody.get(&s("r")).unwrap().get(&s("did:a")), Some(&3));
}

#[test]
fn grants_allow_export_and_no_playback() {
    let terms = mint_export_grant(&s("r"), [6u8; 32], &s("did:a"));
    assert_eq!(terms.target, "r");
    assert_eq!(terms.key, [6u8; 32]);
    assert_eq!(terms.recipient, "did:a");
    assert!(terms.permissions.export);
    assert!(!terms.permissions.playback);
}

#[test]
fn applied_revocations_are_passed_on() {
    let token = |signature_ok| InboundToken { recording_id: s("r"), token: vec![8], signature_ok };
    assert!(RevocationActor::accept(&Some(token(true))));
    assert!(!RevocationActor::accept(&Some(token(false))));
    assert!(!RevocationActor::accept(&None));
    let commands = RevocationActor::after_storage(token(true), RevocationReply::Applied);
    assert!(matches!(&commands[0], EgressCommand::PublishRevocation(t) if *t == vec![8]));
    assert!(matches!(&commands[1], EgressCommand::WithdrawProvider(r) if r == "r"));
    assert_eq!(commands.len(), 2);
    assert!(RevocationActor::after_storage(token(true), RevocationReply::Rejected).is_empty());
    assert!(RevocationActor::after_storage(token(true), RevocationReply::Dropped).is_empty());
}

#[test]
fn trust_recovers_slowly() {
    match TrustManager::handle_command(s("did"), Offense::QuotaExceeded) {
        TrustUpdate::RecordOffense { did, offense } => {
            assert_eq!(did, "did");
            assert_eq!(offense, Offense::QuotaExceeded);
        }
        other => panic!("expected an offense, got {other:?}"),
    }
    assert!(matches!(
        TrustManager::run_maintenance(),
        TrustUpdate::Accumulate { interval_secs: 60, points: 5 }
    ));
}

#[test]
fn senders_drain_first() {
    let wall = spawn_shield_wall();
    assert_eq!(
        wall,
        vec![Task::Eclipse, Task::Canary, Task::Vitals, Task::Archive, Task::Revocation]
    );
    let all = background_tasks();
    assert_eq!(all[..5], wall[..]);
    assert_eq!(all[5], Task::Storage);
    assert_eq!(all.len(), 11);
    assert!(goes_on_waiting(TaskEnd::Done));
    assert!(goes_on_waiting(TaskEnd::Panicked));
    assert!(!goes_on_waiting(TaskEnd::TimedOut));
}

// --- the sentinel ---

fn node_config() -> NodeConfig {
    let pins = ProfilePins {
        name: s("solo_device"),
        protocol_version: s("/mesh/1.0.0"),
        max_chunk_size_bytes: 100,
        video_topic: s("v"),
        audio_topic: s("a"),
        control_topic: s("c"),
        revocation_topic: s("x"),
        require_psk: false,
        target_replica_count: 0,
        has_stronghold_role: false,
    };
    NodeConfig::from_parts(&pins, &NodeInstance::with_symbols(10, 1))
}

fn sentinel() -> MeshSentinel {
    MeshSentinel::new(&node_config(), s("did:me"), s("me"), true)
}

fn data(topic: &str, size: usize) -> NetworkEvent {
    NetworkEvent::DataReceived { origin: s("p"), topic: s(topic), data: vec![0; size] }
}

#[test]
fn messages_are_routed_by_topic() {
    let m = sentinel();
    let route = |e, saturated| m.handle_network_event(e, saturated, true).0;
    assert!(matches!(route(data("c", 10), false), SentinelAction::Heartbeat { .. }));
    assert!(matches!(route(data("x", 10), true), SentinelAction::RevocationToken { .. }));
    assert!(matches!(route(data("v", 10), false), SentinelAction::Ingest { .. }));
    assert!(matches!(route(data("v", 10), true), SentinelAction::Saturated { size: 10, .. }));
    assert!(matches!(route(data("v", 200), false), SentinelAction::Ingest { .. }));
    assert!(matches!(route(data("x", 201), false), SentinelAction::Ignore));
    assert_eq!(m.ingestion_full_pressure(), 20_000);
}

#[test]
fn self_is_no_provider() {
    let m = sentinel();
    let found = |providers: Vec<String>| {
        let event = NetworkEvent::ProvidersDiscovered { recording_id: s("r"), providers };
        m.handle_network_event(event, false, true).0
    };
    match found(vec![s("a"), s("me"), s("b")]) {
        SentinelAction::Providers { recording_id, remote } => {
            assert_eq!(recording_id, "r");
            assert_eq!(remote, vec!["a", "b"]);
        }
        other => panic!("expected providers, got {other:?}"),
    }
    assert!(matches!(found(vec![s("me")]), SentinelAction::Ignore));
}

#[test]
fn other_events_are_passed_on() {
    let m = sentinel();
    let react = |e| m.handle_network_event(e, false, true);
    assert!(matches!(react(NetworkEvent::Shutdown), (SentinelAction::Salvage, true)));
    assert!(matches!(
        react(NetworkEvent::BleAuthChallengeReceived),
        (SentinelAction::Ignore, false)
    ));
    assert!(matches!(
        react(NetworkEvent::BleAuthResponseReceived),
        (SentinelAction::Ignore, false)
    ));
    assert!(matches!(
        react(NetworkEvent::ArchiveRequested { channel_id: s("c") }),
        (SentinelAction::Ignore, false)
    ));
    assert!(matches!(
        react(NetworkEvent::PeerDisconnected { peer: s("p") }),
        (SentinelAction::PeerGone { .. }, false)
    ));
    assert!(matches!(
        react(NetworkEvent::ArchiveReceiptReceived { receipt: vec![] }),
        (SentinelAction::Receipt { .. }, false)
    ));
    assert!(matches!(
        react(NetworkEvent::ShardResponseReceived { origin: s("p"), envelopes: vec![] }),
        (SentinelAction::StoreShards { .. }, false)
    ));
    assert!(matches!(
        react(NetworkEvent::RecordingRequested {
            origin: s("p"),
            request: vec![],
            channel_id: s("c")
        }),
        (SentinelAction::Retrieve { .. }, false)
    ));
    assert!(matches!(
        react(NetworkEvent::PeerDiscovered { peer: s("p"), transport: TransportClass::Internet }),
        (SentinelAction::TryAdmit { balance_percent: 25, .. }, false)
    ));
}

#[test]
fn delivered_shards_name_their_contributor() {
    let envelope = |sequence_id, did: &str| Envelope {
        recording_id: s("r"),
        sequence_id,
        did: s(did),
        witness: s("w"),
        evidence_hash: vec![],
        signature_hash: vec![],
        revocation_key: vec![],
        body: vec![],
    };
    let envelopes = vec![envelope(1, "did:a"), envelope(2, "did:b")];
    let deliveries = MeshSentinel::handle_shard_response(&s("p"), envelopes);
    assert_eq!(deliveries.len(), 2);
    assert_eq!(deliveries[1].origin, "p");
    assert_eq!(deliveries[1].did, "did:b");
    assert_eq!(deliveries[1].recording_id, "r");
    assert_eq!(deliveries[1].envelope.sequence_id, 2);
}

#[test]
fn local_mesh_shifts_the_balance() {
    let mut m = sentinel();
    assert_eq!(m.compute_transport_balance(true), 25);
    assert_eq!(m.compute_transport_balance(false), 40);
    m.has_local_mesh = false;
    assert_eq!(m.compute_transport_balance(false), 10);
}

#[test]
fn nearby_peers_witness_a_recording() {
    let mut m = sentinel();
    let seen = || Some(AdmitOutcome { admitted: true, evicted: None, was_first_seen: true });
    m.on_admission(&s("p"), TransportClass::LocalMesh, seen(), 5);
    assert!(m.session.proximity_witnesses.is_empty());
    m.start_recording(s("r"), Some([1u8; 32]));
    let next = m.on_admission(&s("p"), TransportClass::LocalMesh, seen(), 7);
    assert!(next.reconnected && next.replay_revocations);
    m.on_admission(&s("q"), TransportClass::Internet, seen(), 8);
    let refused = AdmitOutcome { admitted: false, evicted: None, was_first_seen: false };
    let next = m.on_admission(&s("z"), TransportClass::LocalMesh, Some(refused), 9);
    assert!(!next.reconnected && !next.replay_revocations);
    assert!(!m.on_admission(&s("z"), TransportClass::LocalMesh, None, 9).reconnected);
    let witnesses = m.stop_recording();
    assert_eq!(witnesses.len(), 1);
    assert_eq!(witnesses[0].local_did, "did:me");
    assert_eq!(witnesses[0].remote_did, "p");
    assert_eq!(witnesses[0].recording_id, "r");
    assert_eq!(witnesses[0].observed_at, 7);
    assert!(!m.session.is_active());
}

#[test]
fn one_playback_at_a_time() {
    let mut m = sentinel();
    assert!(m.spawn_playback(false).is_ok());
    assert_eq!(m.providers, ProvidersTenant::Playback);
    let refused = m.spawn_playback(false).unwrap_err();
    assert_eq!(refused.message(), "a playback session is already active");
    assert!(m.spawn_playback(true).is_ok());
    m.spawn_recovery();
    assert_eq!(m.providers, ProvidersTenant::Recovery);
    assert_eq!(MeshSentinel::playback_key(None, [2u8; 32]), [2u8; 32]);
    assert_eq!(MeshSentinel::playback_key(Some([1u8; 32]), [2u8; 32]), [1u8; 32]);
}

#[test]
fn sentinel_commands_are_answered() {
    let mut m = sentinel();
    let start = SentinelCommand::SetRecordingState { id: Some(s("r")) };
    assert!(matches!(m.handle_sentinel_command(start), SentinelReply::Started(id) if id == "r"));
    let stop = SentinelCommand::SetRecordingState { id: None };
    assert!(matches!(m.handle_sentinel_command(stop), SentinelReply::Stopped(w) if w.is_empty()));
    assert!(matches!(
        m.handle_sentinel_command(SentinelCommand::SpawnRecovery),
        SentinelReply::Recovery
    ));
    let play = || SentinelCommand::SpawnPlayback { prior_finished: false };
    assert!(matches!(m.handle_sentinel_command(play()), SentinelReply::Playback(Ok(()))));
    assert!(matches!(m.handle_sentinel_command(play()), SentinelReply::Playback(Err(_))));
}

#[test]
fn shutdown_salvages_what_came_back() {
    assert!(MeshSentinel::handle_shutdown(SalvageReply::Unreachable).is_none());
    assert!(MeshSentinel::handle_shutdown(SalvageReply::TimedOut).is_none());
    assert!(MeshSentinel::handle_shutdown(SalvageReply::Abandoned).unwrap().is_empty());
    let pending =
        PendingEgress { channel_id: s("c"), response: vec![], attempt_count: 0, next_attempt: 0 };
    let drained = MeshSentinel::handle_shutdown(SalvageReply::Drained(vec![pending])).unwrap();
    assert_eq!(drained[0].channel_id, "c");
    let (staged, command) = MeshSentinel::handle_commit_notification(&s("r"));
    assert_eq!(staged, "r");
    assert!(matches!(command, EgressCommand::AnnounceRecording(id) if id == "r"));
    assert!(matches!(
        MeshSentinel::handle_discovery_query(s("r")),
        EgressCommand::FindProviders(id) if id == "r"
    ));
}

#[test]
fn plan_follows_the_configuration() {
    let plan = MeshSentinel::plan(&node_config(), 64, [3u8; 32]);
    assert_eq!(plan.video_mailbox, 100);
    assert_eq!(plan.storage_mailbox, 64);
    assert_eq!(plan.egress_mailbox, 100);
    assert_eq!(plan.sentinel_mailbox, 32);
    assert_eq!(plan.initial_tolerance_ms, 1_000);
    assert_eq!(plan.outbound_wal_dir, "./sim_vault/outbound_wal");
    assert_eq!(plan.network_key, [3u8; 32]);
}

#[test]
fn session_holds_one_recording() {
    let mut session = RecordingSessionState::new();
    assert!(!session.is_active());
    session.start(s("r"), Some([1u8; 32]));
    assert!(session.is_active());
    assert_eq!(session.recording_id().map(|id| id.as_str()), Some("r"));
    session.push_witness(ProximityWitness {
        local_did: s("a"),
        remote_did: s("b"),
        recording_id: s("r"),
        observed_at: 1,
        transport: TransportClass::LocalMesh,
    });
    assert_eq!(session.stop().len(), 1);
    assert!(session.recording_id().is_none());
    assert_eq!(session.content_key, None);
}
