use phalanx_node::actors::ingestion::{
    judge_violation, Gate, Ingestion, IngestionAction, IngestionEvent, IngestionPolicy,
};
use phalanx_node::actors::ingress::{
    Assembled, IngressError, IngressOrchestrator, SeenCache,
};
use phalanx_node::actors::recovery::{
    catalogued, Recovery, RecoveryAction, RecoveryState, CHILDREN_STAGE_TIMEOUT_MS,
    MANIFEST_STAGE_TIMEOUT_MS,
};
use phalanx_node::actors::storage::{
    IngestStep, Reassembly, StorageAction, StorageActor, StorageCommand, StorageLimits,
    REPLAY_SEED_SHARDS,
};
use phalanx_node::evidence::{Envelope, GuardianError, Offense, ShardError};
use phalanx_node::persistence::vault::guardian::{AppendPlan, Guardian};

fn rid(s: &str) -> String {
    s.to_string()
}

fn envelope(id: &str, sequence_id: u32, did: &str) -> Envelope {
    Envelope {
        recording_id: rid(id),
        sequence_id,
        did: rid(did),
        witness: rid("did:key:zWitness"),
        evidence_hash: vec![1],
        signature_hash: vec![2],
        revocation_key: vec![3],
        body: vec![4],
    }
}

fn actor() -> StorageActor {
    StorageActor {
        guardian: Guardian::new(rid("/vault"), rid("did:key:zLocal")),
        limits: StorageLimits {
            max_storage_bytes: 1_000_000,
            max_foreign_storage_bytes: 1_000,
            max_foreign_per_owner_bytes: 100,
        },
        current_tolerance_ms: 500,
        announcing: true,
    }
}

fn ingest(actor: &mut StorageActor, owner: &str, pressure_critical: bool) -> StorageAction {
    actor.handle_command(StorageCommand::Ingest {
        owner: rid(owner),
        pressure_critical,
        ttl_ms: 700,
    })
}

fn failure(action: StorageAction) -> String {
    match action {
        StorageAction::Reply(Err(GuardianError::StorageFailure(m))) => m,
        other => panic!("expected a storage failure, got {other:?}"),
    }
}

#[test]
fn chunks_are_admitted_by_owner() {
    let mut a = actor();
    assert!(matches!(
        ingest(&mut a, "did:key:zLocal", false),
        StorageAction::Reassemble { foreign: false }
    ));
    assert_eq!(a.current_tolerance_ms, 700);
    assert!(matches!(
        ingest(&mut a, "did:key:zOther", false),
        StorageAction::Reassemble { foreign: true }
    ));
}

#[test]
fn full_quota_takes_nothing_foreign() {
    let mut a = actor();
    a.guardian.ledger.record_foreign_ingestion(100, &rid("did:key:zOther"));
    assert_eq!(
        failure(ingest(&mut a, "did:key:zOther", false)),
        "Per-owner foreign quota exceeded for did:key:zOther (100 >= 100 bytes)"
    );
    assert!(matches!(
        ingest(&mut a, "did:key:zThird", false),
        StorageAction::Reassemble { foreign: true }
    ));
    a.guardian.ledger.record_foreign_ingestion(900, &rid("did:key:zThird"));
    assert_eq!(
        failure(ingest(&mut a, "did:key:zFourth", false)),
        "Foreign storage limit reached (1000 >= 1000 bytes)"
    );
    assert!(matches!(
        ingest(&mut a, "did:key:zLocal", false),
        StorageAction::Reassemble { foreign: false }
    ));
}

#[test]
fn hard_limits_hold_for_everyone() {
    let mut a = actor();
    assert_eq!(
        failure(ingest(&mut a, "did:key:zLocal", true)),
        "Storage pressure critical: WAL near capacity"
    );
    a.limits.max_storage_bytes = 0;
    assert_eq!(
        failure(ingest(&mut a, "did:key:zLocal", false)),
        "P6: Hard storage limit reached (0 >= 0 bytes)"
    );
}

#[test]
fn reassembled_chunks_are_counted() {
    let mut a = actor();
    let owner = rid("did:key:zOther");
    let step = a.settle_reassembly(true, &owner, 10, Reassembly::Partial);
    assert!(matches!(step, IngestStep::Done(Ok(()))));
    assert_eq!(a.guardian.ledger.foreign_bytes_for_owner(&owner), 10);

    let complete = |replayed| Reassembly::Complete {
        envelope: envelope("r1", 1, "did:key:zLocal"),
        replayed,
    };
    match a.settle_reassembly(false, &rid("did:key:zLocal"), 5, complete(false)) {
        IngestStep::Append(e) => assert_eq!(e.recording_id, "r1"),
        other => panic!("expected an append, got {other:?}"),
    }
    assert_eq!(a.guardian.ledger.own_bytes, 5);
    assert!(matches!(
        a.settle_reassembly(false, &rid("did:key:zLocal"), 5, complete(true)),
        IngestStep::Done(Err(GuardianError::ReplayDetected(0)))
    ));
    match a.settle_reassembly(true, &owner, 10, Reassembly::Failed(rid("crc"))) {
        IngestStep::Done(Err(GuardianError::VerificationFailed(m))) => assert_eq!(m, "crc"),
        other => panic!("expected a failure, got {other:?}"),
    }
    assert_eq!(a.guardian.ledger.foreign_bytes_for_owner(&owner), 10);
}

#[test]
fn foreign_recordings_get_a_key_on_their_first_shard() {
    let mut a = actor();
    let write = |e: Envelope| StorageCommand::WriteShard { envelope: e, owner_dir: rid("dir") };
    match a.handle_command(write(envelope("f", 1, "did:key:zOther"))) {
        StorageAction::Write { persist_keyring, plan, .. } => {
            assert!(persist_keyring);
            match plan {
                AppendPlan::OpenLog { dir, path } => {
                    assert_eq!(dir, "/vault/dir");
                    assert_eq!(path, "/vault/dir/f.recording");
                }
                other => panic!("expected a new log, got {other:?}"),
            }
        }
        other => panic!("expected a write, got {other:?}"),
    }
    let key = a.guardian.get_content_key(&rid("f"));
    assert!(key.is_some());
    assert!(matches!(
        a.handle_command(write(envelope("f", 2, "did:key:zOther"))),
        StorageAction::Write { persist_keyring: false, .. }
    ));
    assert_eq!(a.guardian.get_content_key(&rid("f")), key);
}

#[test]
fn drawn_key_is_stored_with_the_first_shard() {
    let mut a = actor();
    let first = |id: &str| envelope(id, 1, "did:key:zOther");
    assert!(a.lacks_key(&first("f")));
    assert!(matches!(a.write_drawn(first("f"), "dir", None), StorageAction::NoRandomness));
    assert_eq!(a.guardian.get_content_key(&rid("f")), None);
    match a.write_drawn(first("f"), "dir", Some([6u8; 32])) {
        StorageAction::Write { envelope, persist_keyring, .. } => {
            assert!(persist_keyring);
            assert_eq!(envelope.recording_id, "f");
        }
        other => panic!("expected a write, got {other:?}"),
    }
    assert_eq!(a.guardian.get_content_key(&rid("f")), Some([6u8; 32]));
    assert!(!a.lacks_key(&first("f")));
    assert!(matches!(
        a.write_drawn(envelope("f", 2, "did:key:zOther"), "dir", Some([7u8; 32])),
        StorageAction::Write { persist_keyring: false, .. }
    ));
    assert_eq!(a.guardian.get_content_key(&rid("f")), Some([6u8; 32]));
    assert!(matches!(
        a.write_drawn(envelope("o", 1, "did:key:zLocal"), "dir", Some([7u8; 32])),
        StorageAction::Write { persist_keyring: false, .. }
    ));
    assert_eq!(a.guardian.get_content_key(&rid("o")), None);
    a.guardian.revoked_recordings.insert(rid("gone"), ());
    assert!(matches!(
        a.write_drawn(first("gone"), "dir", Some([7u8; 32])),
        StorageAction::Reply(Err(GuardianError::RecordingRevoked(_)))
    ));
    assert_eq!(a.guardian.get_content_key(&rid("gone")), None);
}

#[test]
fn stored_evidence_is_remembered() {
    let mut a = actor();
    let mut e = envelope("r1", 1, "did:key:zLocal");
    e.evidence_hash = vec![4, 2];
    let refused = a.after_append(&e, Err(GuardianError::WalWriteFailed(rid("disk"))));
    assert_eq!(StorageActor::to_remember(&e, &refused), None);
    let unknown = a.after_append(&e, Ok(0));
    assert_eq!(StorageActor::to_remember(&e, &unknown), None);
    a.guardian.register_log(&rid("r1"), rid("did:key:zLocal"), rid("/p"), &[]);
    let committed = a.after_append(&e, Ok(0));
    assert_eq!(StorageActor::to_remember(&e, &committed), Some(vec![4, 2]));
}

#[test]
fn replay_filter_starts_from_the_last_shards() {
    let shards: Vec<Envelope> = (0..60u8)
        .map(|i| {
            let mut e = envelope("r1", u32::from(i), "did:key:zLocal");
            e.evidence_hash = vec![i];
            e
        })
        .collect();
    let seeds = StorageActor::replay_seeds(&shards);
    assert_eq!(seeds.len(), REPLAY_SEED_SHARDS);
    assert_eq!(seeds[0], vec![10]);
    assert_eq!(seeds[49], vec![59]);
    assert_eq!(StorageActor::replay_seeds(&vec![envelope("r", 1, "d")]), vec![vec![1]]);
}

#[test]
fn own_recordings_store_no_key() {
    let mut a = actor();
    let command = StorageCommand::WriteShard {
        envelope: envelope("o", 1, "did:key:zLocal"),
        owner_dir: rid("dir"),
    };
    assert!(matches!(
        a.handle_command(command),
        StorageAction::Write { persist_keyring: false, .. }
    ));
    assert_eq!(a.guardian.get_content_key(&rid("o")), None);
    match a.handle_command(StorageCommand::GetContentKey {
        recording_id: rid("o"),
        derived: [8u8; 32],
    }) {
        StorageAction::Key(key) => assert_eq!(key, [8u8; 32]),
        other => panic!("expected a key, got {other:?}"),
    }
}

#[test]
fn appended_shards_are_announced_and_promoted() {
    let mut a = actor();
    let e = envelope("r1", 1, "did:key:zLocal");
    assert!(matches!(
        a.after_append(&e, Err(GuardianError::WalWriteFailed(rid("disk")))),
        Err(GuardianError::WalWriteFailed(_))
    ));
    assert!(matches!(a.after_append(&e, Ok(0)), Err(GuardianError::StorageFailure(_))));
    a.guardian.register_log(&rid("r1"), rid("did:key:zLocal"), rid("/p"), &[]);
    a.current_tolerance_ms = 90_000;
    let committed = a.after_append(&e, Ok(64)).unwrap();
    assert_eq!(committed.announce.as_deref(), Some("r1"));
    let promotion = committed.promotion.unwrap();
    assert_eq!(promotion.tolerance_ms, 30_000);
    assert!(promotion.anchor.is_none());
    match a.handle_command(StorageCommand::GetShard { recording_id: rid("r1"), sequence_id: 1 }) {
        StorageAction::ReadAt { offset } => assert_eq!(offset, 64),
        other => panic!("expected a place, got {other:?}"),
    }
    assert!(matches!(
        a.handle_command(StorageCommand::GetShard { recording_id: rid("r1"), sequence_id: 2 }),
        StorageAction::Nothing
    ));
}

#[test]
fn the_anchor_is_the_shard_before() {
    let mut a = actor();
    let mut first = envelope("r1", 1, "did:key:zLocal");
    first.signature_hash = vec![77];
    a.guardian.contexts.insert(rid("r1"), vec![first]);
    match a.handle_command(StorageCommand::IngestEnvelope {
        envelope: envelope("r1", 2, "did:key:zLocal"),
        ttl_ms: 10,
    }) {
        StorageAction::Promote { promotion, .. } => {
            assert_eq!(promotion.anchor, Some(vec![77]));
            assert_eq!(promotion.tolerance_ms, 10);
        }
        other => panic!("expected a promotion, got {other:?}"),
    }
    assert_eq!(a.guardian.get_shard(&rid("r1"), 1).unwrap().signature_hash, vec![77]);
    assert_eq!(a.guardian.get_active_recording_shards(&rid("r1")).unwrap().len(), 1);
    assert_eq!(a.guardian.wal_bytes_estimate(), 4096);
}

#[test]
fn local_only_recordings_are_never_announced() {
    let mut a = actor();
    let started = a.handle_command(StorageCommand::StartRecordingWithOptions {
        recording_id: rid("private"),
        publishable: false,
    });
    assert!(matches!(started, StorageAction::Start { append_manifest: false }));
    assert_eq!(a.announce(&rid("private")), None);
    assert!(matches!(
        a.handle_command(StorageCommand::StartRecording { recording_id: rid("public") }),
        StorageAction::Start { append_manifest: true }
    ));
    assert_eq!(a.announce(&rid("public")).as_deref(), Some("public"));
    a.announcing = false;
    assert_eq!(a.announce(&rid("public")), None);
    a.announcing = true;
    a.pin_manifest(&rid("private"));
    assert_eq!(a.announce(&rid("private")).as_deref(), Some("private"));
}

#[test]
fn catalogued_recordings_announce_the_manifest() {
    let mut a = actor();
    a.pin_manifest(&rid("m"));
    assert_eq!(a.settle_manifest(&rid("m"), Ok(())).unwrap().as_deref(), Some("m"));
    match a.settle_manifest(&rid("m"), Err(rid("disk full"))) {
        Err(ShardError::Io(m)) => assert_eq!(m, "manifest append: disk full"),
        other => panic!("expected an error, got {other:?}"),
    }
    a.announcing = false;
    assert_eq!(a.settle_manifest(&rid("m"), Ok(())).unwrap(), None);
}

#[test]
fn revocations_need_a_sound_token() {
    let mut a = actor();
    let mut message = |token: Result<(), String>, key: Option<Result<(), String>>| {
        let command = StorageCommand::Revoke {
            recording_id: rid("r1"),
            token_check: token,
            key_check: key,
        };
        match a.handle_command(command) {
            StorageAction::Reply(Err(GuardianError::VerificationFailed(m))) => m,
            StorageAction::Execute => rid("execute"),
            other => panic!("unexpected {other:?}"),
        }
    };
    assert_eq!(message(Err(rid("bad")), Some(Ok(()))), "Revocation token invalid: bad");
    assert_eq!(
        message(Ok(()), Some(Err(rid("other key")))),
        "Revocation authorization failed: other key"
    );
    assert_eq!(message(Ok(()), None), "Cannot authorize revocation for unknown recording");
    assert_eq!(message(Ok(()), Some(Ok(()))), "execute");
    a.guardian.register_log(&rid("r1"), rid("o"), rid("/p"), &[]);
    assert!(a.authorize_revocation(&rid("r1"), Ok(()), None).is_ok());
}

#[test]
fn revoked_recordings_stay_gone() {
    let mut a = actor();
    a.restore_revocations(&vec![rid("gone")]);
    let written = a.handle_command(StorageCommand::WriteShard {
        envelope: envelope("gone", 1, "did:key:zOther"),
        owner_dir: rid("dir"),
    });
    assert!(matches!(
        written,
        StorageAction::Reply(Err(GuardianError::RecordingRevoked(_)))
    ));
    assert_eq!(a.guardian.get_content_key(&rid("gone")), None);
    assert!(matches!(
        a.handle_command(StorageCommand::StartRecording { recording_id: rid("gone") }),
        StorageAction::StartRefused(ShardError::RecordingRevoked)
    ));
    let promoted = a.handle_command(StorageCommand::IngestEnvelope {
        envelope: envelope("gone", 1, "did:key:zOther"),
        ttl_ms: 1,
    });
    assert!(matches!(
        promoted,
        StorageAction::Reply(Err(GuardianError::RecordingRevoked(_)))
    ));
}

#[test]
fn ghost_keys_are_cleaned_up() {
    let mut a = actor();
    a.guardian.register_content_key(&rid("a"), [1u8; 32]);
    a.guardian.register_content_key(&rid("b"), [2u8; 32]);
    a.restore_revocations(&vec![rid("a"), rid("c")]);
    assert_eq!(a.cleanup_ghost_keys(), 1);
    assert_eq!(a.guardian.get_content_key(&rid("a")), None);
    assert_eq!(a.guardian.get_content_key(&rid("b")), Some([2u8; 32]));
    assert_eq!(a.cleanup_ghost_keys(), 0);
}

#[test]
fn plain_commands_are_passed_on() {
    let mut a = actor();
    a.guardian.register_log(&rid("b"), rid("o"), rid("/b"), &[]);
    a.guardian.register_log(&rid("a"), rid("o"), rid("/a"), &[]);
    match a.handle_command(StorageCommand::ListRecordings) {
        StorageAction::Names(names) => assert_eq!(names, vec!["a", "b"]),
        other => panic!("expected names, got {other:?}"),
    }
    assert!(matches!(
        a.handle_command(StorageCommand::Retrieval { recording_id: rid("a") }),
        StorageAction::ReadLog
    ));
    assert!(matches!(
        a.handle_command(StorageCommand::Retrieval { recording_id: rid("z") }),
        StorageAction::Nothing
    ));
    assert!(matches!(
        a.handle_command(StorageCommand::DebugRecordingInfo { recording_id: rid("a") }),
        StorageAction::Info { shards: 0, has_key: false }
    ));
    match a.handle_command(StorageCommand::DebugDeleteRecording { recording_id: rid("a") }) {
        StorageAction::Deleted { log_path } => assert_eq!(log_path.as_deref(), Some("/a")),
        other => panic!("expected a deletion, got {other:?}"),
    }
    assert!(matches!(
        a.handle_command(StorageCommand::EmergencySalvage),
        StorageAction::Salvage
    ));
    assert!(matches!(
        a.handle_command(StorageCommand::DebugVaultListing),
        StorageAction::ListVault
    ));
    assert!(matches!(
        a.handle_command(StorageCommand::GetRevocationTokens),
        StorageAction::ReadRevocations
    ));
    assert!(matches!(
        a.handle_command(StorageCommand::PersistPosterior),
        StorageAction::WritePosterior
    ));
}

fn policy() -> IngestionPolicy {
    IngestionPolicy {
        video_topic: rid("v"),
        audio_topic: rid("a"),
        evidence_ttl_secs: 300,
    }
}

#[test]
fn storage_is_behind_every_gate() {
    let p = policy();
    let mut c = Ingestion::new();
    assert!(matches!(
        c.step(&p, IngestionEvent::Arrived { topic: rid("a") }),
        IngestionAction::CheckTraffic
    ));
    assert!(matches!(
        c.step(&p, IngestionEvent::TrafficChecked { accepted: true }),
        IngestionAction::Decode
    ));
    assert!(matches!(
        c.step(&p, IngestionEvent::Decoded { chunk: Some((rid("did"), 1_000)) }),
        IngestionAction::CheckBandwidth
    ));
    assert!(matches!(
        c.step(&p, IngestionEvent::BandwidthChecked { within: true }),
        IngestionAction::CheckStanding
    ));
    assert!(matches!(
        c.step(&p, IngestionEvent::StandingChecked { coupled: true, good_standing: true }),
        IngestionAction::ReadClock
    ));
    assert!(matches!(
        c.step(&p, IngestionEvent::ClockRead { now_ms: Some(1_250) }),
        IngestionAction::RecordAge { age_ms: 250 }
    ));
    assert!(matches!(
        c.step(&p, IngestionEvent::ToleranceRead { tolerance_ms: 250 }),
        IngestionAction::AskSlot
    ));
    assert!(matches!(
        c.step(&p, IngestionEvent::SlotAsked { granted: true }),
        IngestionAction::Store { ttl_secs: 300 }
    ));
    assert!(matches!(
        c.step(&p, IngestionEvent::Sent { delivered: true }),
        IngestionAction::AwaitReply
    ));
    match c.step(&p, IngestionEvent::Replied { outcome: Some(Ok(())) }) {
        IngestionAction::Conclude { good, owner, offense } => {
            assert!(good);
            assert_eq!(owner, "did");
            assert_eq!(offense, None);
        }
        other => panic!("expected a conclusion, got {other:?}"),
    }
    assert_eq!(c.gate, Gate::Done);
}

fn at(gate: Gate) -> Ingestion {
    Ingestion { gate, owner: rid("did"), birth_ms: 1_000, age_ms: 0 }
}

#[test]
fn each_gate_turns_chunks_away() {
    let p = policy();
    let stop = |gate: Gate, event: IngestionEvent| match at(gate).step(&p, event) {
        IngestionAction::Stop { release_slot, record_time } => (release_slot, record_time),
        other => panic!("expected a stop, got {other:?}"),
    };
    assert_eq!(stop(Gate::Topic, IngestionEvent::Arrived { topic: rid("x") }), (false, false));
    assert_eq!(
        stop(Gate::Traffic, IngestionEvent::TrafficChecked { accepted: false }),
        (false, false)
    );
    assert_eq!(stop(Gate::Format, IngestionEvent::Decoded { chunk: None }), (false, true));
    assert_eq!(
        stop(Gate::Bandwidth, IngestionEvent::BandwidthChecked { within: false }),
        (false, false)
    );
    assert_eq!(stop(Gate::Slot, IngestionEvent::SlotAsked { granted: false }), (false, false));
    assert_eq!(stop(Gate::Delivery, IngestionEvent::Sent { delivered: false }), (true, false));
    assert_eq!(stop(Gate::Reply, IngestionEvent::Replied { outcome: None }), (true, true));
    let mut old = at(Gate::Tolerance);
    old.age_ms = 11;
    assert!(matches!(
        old.step(&p, IngestionEvent::ToleranceRead { tolerance_ms: 10 }),
        IngestionAction::Stop { release_slot: false, record_time: false }
    ));
    for (coupled, good_standing) in [(false, true), (true, false)] {
        assert!(matches!(
            at(Gate::Standing)
                .step(&p, IngestionEvent::StandingChecked { coupled, good_standing }),
            IngestionAction::Refuse
        ));
    }
}

#[test]
fn chunks_from_the_future_have_no_age() {
    let p = policy();
    for now_ms in [Some(10), None] {
        assert!(matches!(
            at(Gate::Clock).step(&p, IngestionEvent::ClockRead { now_ms }),
            IngestionAction::RecordAge { age_ms: 0 }
        ));
    }
}

#[test]
fn each_violation_has_its_offense() {
    let s = || rid("x");
    assert_eq!(
        judge_violation(&GuardianError::VerificationFailed(s())),
        Some(Offense::InvalidSignature)
    );
    assert_eq!(
        judge_violation(&GuardianError::InvalidSignature(s())),
        Some(Offense::InvalidSignature)
    );
    assert_eq!(judge_violation(&GuardianError::QuotaExceeded(s())), Some(Offense::QuotaExceeded));
    assert_eq!(judge_violation(&GuardianError::ReplayDetected(1)), Some(Offense::ReplayAttack));
    assert_eq!(judge_violation(&GuardianError::AmbiguousOwnership), None);
    assert_eq!(
        judge_violation(&GuardianError::PolicyViolation(s())),
        Some(Offense::IdentityTheft)
    );
    assert_eq!(
        judge_violation(&GuardianError::StorageFailure(s())),
        Some(Offense::ProtocolViolation)
    );
}

#[test]
fn seen_chunks_are_passed_over() {
    let mut o = IngressOrchestrator { seen_cache: SeenCache::new() };
    let owner = rid("did");
    assert!(matches!(o.process_chunk(&rid("s"), 0, &owner, false), Ok(true)));
    assert!(matches!(o.process_chunk(&rid("s"), 0, &owner, true), Ok(false)));
    assert!(matches!(o.process_chunk(&rid("s"), 1, &owner, false), Ok(true)));
    match o.process_chunk(&rid("t"), 0, &owner, true) {
        Err(IngressError::Blacklisted(did)) => assert_eq!(did, "did"),
        other => panic!("expected a refusal, got {other:?}"),
    }
}

#[test]
fn assembled_chunks_are_concluded() {
    assert!(matches!(
        IngressOrchestrator::conclude(Assembled::Complete(Ok(()))),
        (Ok(true), None)
    ));
    assert!(matches!(IngressOrchestrator::conclude(Assembled::Incomplete), (Ok(false), None)));
    assert!(matches!(
        IngressOrchestrator::conclude(Assembled::Rejected(rid("x"))),
        (Err(IngressError::ReassemblerRejected(_)), None)
    ));
    assert!(matches!(
        IngressOrchestrator::conclude(Assembled::Complete(Err(GuardianError::QuotaExceeded(
            rid("x")
        )))),
        (Err(IngressError::GuardianRejected(_)), Some(Offense::QuotaExceeded))
    ));
    assert!(matches!(
        IngressOrchestrator::conclude(Assembled::Complete(Err(GuardianError::AmbiguousOwnership))),
        (Err(IngressError::GuardianRejected(_)), None)
    ));
}

fn found(action: RecoveryAction) -> Vec<String> {
    match action {
        RecoveryAction::Find(ids) => ids,
        other => panic!("expected a search, got {other:?}"),
    }
}

#[test]
fn recovery_walks_the_manifest() {
    let (mut r, first) = Recovery::start(rid("m"));
    assert_eq!(found(first), vec!["m"]);
    assert!(matches!(r.manifest_poll(false, 0), RecoveryAction::List));
    assert!(matches!(r.manifest_listed(&vec![rid("x")]), RecoveryAction::Sleep));
    for _ in 1..10 {
        assert!(matches!(r.manifest_slept(), RecoveryAction::Poll));
    }
    assert_eq!(found(r.manifest_slept()), vec!["m"]);
    assert!(matches!(r.manifest_listed(&vec![rid("m")]), RecoveryAction::ReadManifest));
    assert_eq!(r.status.state, RecoveryState::WalkingManifest);
    let children = vec![rid("c"), rid("a"), rid("b"), rid("a")];
    assert!(matches!(r.manifest_read(Some(children)), RecoveryAction::List));
    assert_eq!(r.status.total, 3);
    assert_eq!(found(r.children_listed_first(&vec![rid("b")])), vec!["a", "c"]);
    assert_eq!(r.status.recovered, 1);
    assert!(matches!(r.children_poll(false, 0), RecoveryAction::Sleep));
    assert!(matches!(r.children_slept(), RecoveryAction::List));
    assert!(matches!(r.children_listed(&vec![rid("a")]), RecoveryAction::Poll));
    assert_eq!(r.status.recovered, 2);
    // What was recovered stays recovered.
    r.children_listed(&vec![]);
    assert_eq!(r.status.recovered, 2);
    r.children_listed(&vec![rid("c")]);
    assert!(matches!(r.children_poll(true, 0), RecoveryAction::Stop));
    assert_eq!(r.status.state, RecoveryState::Complete);
    assert_eq!(r.status.recovered, 3);
}

#[test]
fn recovery_gives_up_in_time() {
    let (mut r, _) = Recovery::start(rid("m"));
    assert!(matches!(r.manifest_poll(false, MANIFEST_STAGE_TIMEOUT_MS - 1), RecoveryAction::List));
    assert!(matches!(r.manifest_poll(false, MANIFEST_STAGE_TIMEOUT_MS), RecoveryAction::Stop));
    assert_eq!(r.status.state, RecoveryState::NoManifestFound);

    let (mut r, _) = Recovery::start(rid("m"));
    assert!(matches!(r.manifest_poll(true, 0), RecoveryAction::Stop));
    assert_eq!(r.status.state, RecoveryState::Cancelled);

    let (mut r, _) = Recovery::start(rid("m"));
    assert!(matches!(r.manifest_read(None), RecoveryAction::Stop));
    assert_eq!(r.status.state, RecoveryState::NoManifestFound);

    let (mut r, _) = Recovery::start(rid("m"));
    r.manifest_read(Some(vec![rid("a")]));
    r.children_listed_first(&vec![]);
    assert!(matches!(r.children_poll(false, CHILDREN_STAGE_TIMEOUT_MS), RecoveryAction::Stop));
    assert_eq!(r.status.state, RecoveryState::Complete);
    assert_eq!(r.status.recovered, 0);
}

#[test]
fn manifest_names_its_recordings() {
    assert_eq!(catalogued(&vec![Some(rid("a")), None, Some(rid("b"))]), vec!["a", "b"]);
}
