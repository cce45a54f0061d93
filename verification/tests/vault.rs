use phalanx_node::evidence::{Envelope, GuardianError, ShardError};
use phalanx_node::lists::keep;
use phalanx_node::persistence::vault::guardian::{
    promotion_error, recording_of_file, AppendPlan, Guardian, LogFile,
};
use phalanx_node::persistence::vault::listing::{vault_listing, Preview, SubFile, VaultEntry};
use phalanx_node::persistence::vault::metadata::RecordingOptions;
use phalanx_node::persistence::vault::recording_log::{
    encode_frame, order_by_sequence, read_frame, read_frames, rebuild_index, FrameFault,
    ShardIndex,
};
use phalanx_node::persistence::vault::wal::{
    read_chunks, read_egress_salvage, read_workbench_state, record_chunk, record_revocations,
    record_workbench_state, seal, unseal, RevocationScan, WorkbenchFault,
    MAX_EGRESS_SALVAGE_BYTES, MAX_WAL_AGGREGATE_BYTES, MAX_WORKBENCH_STATE_BYTES,
};

const NONCE: [u8; 24] = [3u8; 24];

fn envelope(id: &str, sequence_id: u32) -> Envelope {
    Envelope {
        recording_id: id.to_string(),
        sequence_id,
        did: "did:key:zOwner".to_string(),
        witness: "did:key:zWitness".to_string(),
        evidence_hash: vec![1],
        signature_hash: vec![2],
        revocation_key: vec![3],
        body: vec![4],
    }
}

#[test]
fn frame_is_header_nonce_and_ciphertext() {
    let frame = encode_frame(0x01020304, &NONCE, &[9, 8]);
    assert_eq!(frame[..4], [4, 3, 2, 1]);
    assert_eq!(frame[4..8], [26, 0, 0, 0]);
    assert_eq!(frame[8..32], NONCE);
    assert_eq!(frame[32..], [9, 8]);
}

#[test]
fn appended_frames_are_read_back() {
    let mut log = encode_frame(1, &NONCE, &[10]);
    let second_at = log.len() as u64;
    log.extend(encode_frame(2, &NONCE, &[20, 21]));
    let frames = read_frames(&log);
    assert_eq!(frames.len(), 2);
    assert_eq!(frames[1].sequence_id, 2);
    assert_eq!(frames[1].offset, second_at);
    assert_eq!(frames[1].payload[24..], [20, 21]);
    let (nonce, ciphertext) = read_frame(&log, second_at).unwrap();
    assert_eq!(nonce, NONCE.to_vec());
    assert_eq!(ciphertext, vec![20, 21]);
}

#[test]
fn torn_tail_is_ignored() {
    let whole = encode_frame(1, &NONCE, &[10]);
    let torn = encode_frame(2, &NONCE, &[20, 21]);
    for cut in 0..torn.len() {
        let mut log = whole.clone();
        log.extend_from_slice(&torn[..cut]);
        assert_eq!(read_frames(&log).len(), 1);
    }
}

#[test]
fn faulty_frames_are_told_apart() {
    let log = encode_frame(1, &NONCE, &[10]);
    assert_eq!(read_frame(&log, 1000), Err(FrameFault::UnexpectedEnd));
    assert_eq!(read_frame(&log[..20], 0), Err(FrameFault::UnexpectedEnd));
    let short = encode_frame(1, &NONCE[..10], &[]);
    assert_eq!(read_frame(&short, 0), Err(FrameFault::TooSmall));
    assert_eq!(read_frame(&log, u64::MAX), Err(FrameFault::UnexpectedEnd));
}

#[test]
fn rebuilt_index_points_at_the_last_frame_of_a_sequence() {
    let mut log = encode_frame(1, &NONCE, &[10]);
    let second_at = log.len() as u64;
    log.extend(encode_frame(2, &NONCE, &[20]));
    let third_at = log.len() as u64;
    log.extend(encode_frame(1, &NONCE, &[11]));
    let index = rebuild_index(&log);
    assert_eq!(index.len(), 2);
    assert_eq!(index.get(1), Some(third_at));
    assert_eq!(index.get(2), Some(second_at));
    assert_eq!(index.get(3), None);
    assert_eq!(index.last(), Some(2));
    assert_eq!(ShardIndex::new().last(), None);
}

#[test]
fn shards_are_ordered_by_sequence() {
    let sorted = order_by_sequence(vec![envelope("r", 3), envelope("r", 1), envelope("r", 2)]);
    let ids: Vec<u32> = sorted.iter().map(|e| e.sequence_id).collect();
    assert_eq!(ids, vec![1, 2, 3]);
}

#[test]
fn logged_chunks_are_recovered() {
    let mut log = record_chunk(0, &NONCE, &[1]).unwrap();
    assert_eq!(log[..4], [25, 0, 0, 0]);
    log.extend(record_chunk(log.len() as u64, &NONCE, &[2, 3]).unwrap());
    let chunks = read_chunks(&log);
    assert_eq!(chunks.len(), 2);
    assert_eq!(chunks[0][24..], [1]);
    assert_eq!(chunks[1][24..], [2, 3]);
    let cut = log.len() - 1;
    assert_eq!(read_chunks(&log[..cut]).len(), 1);
}

#[test]
fn implausible_chunks_are_stepped_over() {
    let mut log = record_chunk(0, &[], &[1, 2]).unwrap();
    log.extend(record_chunk(0, &NONCE, &[7]).unwrap());
    let chunks = read_chunks(&log);
    assert_eq!(chunks.len(), 1);
    assert_eq!(chunks[0][24..], [7]);
}

#[test]
fn full_log_takes_no_chunk() {
    assert!(record_chunk(MAX_WAL_AGGREGATE_BYTES - 1, &NONCE, &[1]).is_ok());
    match record_chunk(MAX_WAL_AGGREGATE_BYTES, &NONCE, &[1]) {
        Err(ShardError::Io(m)) => assert_eq!(m, "WAL aggregate size limit exceeded"),
        other => panic!("expected an error, got {other:?}"),
    }
}

#[test]
fn sealed_bytes_come_apart_again() {
    let sealed = seal(&NONCE, &[5, 6]);
    assert_eq!(unseal(&sealed), Some((NONCE.to_vec(), vec![5, 6])));
    assert_eq!(unseal(&sealed[..23]), None);
}

#[test]
fn salvage_has_its_limits() {
    let sealed = seal(&NONCE, &[5]);
    assert_eq!(read_egress_salvage(&sealed).unwrap().1, vec![5]);
    match read_egress_salvage(&sealed[..3]) {
        Err(ShardError::SerializationError(m)) => {
            assert_eq!(m, "Egress salvage file too small for AEAD frame")
        }
        other => panic!("expected an error, got {other:?}"),
    }
    let large = vec![0u8; MAX_EGRESS_SALVAGE_BYTES as usize + 1];
    match read_egress_salvage(&large) {
        Err(ShardError::SerializationError(m)) => {
            assert_eq!(m, "Egress salvage file exceeds 64 MiB limit")
        }
        other => panic!("expected an error, got {other:?}"),
    }
}

#[test]
fn workbench_state_is_read_back() {
    let file = record_workbench_state(&NONCE, &[1, 2, 3]);
    assert_eq!(file[..8], 27u64.to_be_bytes());
    assert_eq!(read_workbench_state(&file), Ok((NONCE.to_vec(), vec![1, 2, 3])));
}

#[test]
fn workbench_faults_are_told_apart() {
    let file = record_workbench_state(&NONCE, &[1]);
    let fault = |data: &[u8]| read_workbench_state(data).unwrap_err();
    assert_eq!(fault(&file[..7]), WorkbenchFault::NoLength);
    assert_eq!(fault(&file[..20]), WorkbenchFault::NoPayload);
    let large = (MAX_WORKBENCH_STATE_BYTES + 1).to_be_bytes();
    assert_eq!(fault(&large), WorkbenchFault::TooLarge);
    assert_eq!(fault(&record_workbench_state(&[], &[1])), WorkbenchFault::TooSmall);
    assert_eq!(WorkbenchFault::NoLength.message(), "Failed to read state length");
    assert_eq!(WorkbenchFault::TooLarge.message(), "Workbench state exceeds 256 MiB limit");
    assert_eq!(WorkbenchFault::TooSmall.message(), "Workbench state too small for AEAD frame");
    assert_eq!(WorkbenchFault::NoPayload.message(), "Failed to read state payload");
}

// Tokens of these tests are a name and some bytes, encoded one after the other.
fn token(name: &str, bytes: &[u8]) -> (String, Vec<u8>) {
    (rid(name), postcard::to_allocvec(&(name, bytes)).unwrap())
}

fn take_token(data: &[u8]) -> Result<(String, usize), String> {
    match postcard::take_from_bytes::<(String, Vec<u8>)>(data) {
        Ok(((name, _), rest)) => Ok((name, data.len() - rest.len())),
        Err(e) => Err(e.to_string()),
    }
}

fn read_list(plaintext: Option<&[u8]>) -> Result<Vec<(String, Vec<u8>)>, ShardError> {
    let mut scan = RevocationScan::begin(plaintext)?;
    while scan.left > 0 {
        let token = take_token(&scan.body);
        scan = scan.next(token)?;
    }
    Ok(scan.found)
}

#[test]
fn revocations_are_added_behind_the_stored_ones() {
    let first = record_revocations(Ok(vec![]), &vec![token("r1", &[1, 2])]);
    assert_eq!(first, postcard::to_allocvec(&vec![("r1", vec![1u8, 2])]).unwrap());
    let added = vec![token("r2", &[]), token("r1", &[9])];
    let second = record_revocations(read_list(Some(&first)), &added);
    let whole = vec![("r1", vec![1u8, 2]), ("r2", vec![]), ("r1", vec![9])];
    assert_eq!(second, postcard::to_allocvec(&whole).unwrap());
    assert_eq!(
        read_list(Some(&second)).unwrap(),
        vec![token("r1", &[1, 2]), token("r2", &[]), token("r1", &[9])]
    );
    assert_eq!(read_list(None).unwrap(), vec![]);
}

#[test]
fn long_revocation_lists_are_counted_in_full() {
    let many: Vec<(String, Vec<u8>)> = (0..300u16).map(|i| token("r", &i.to_le_bytes())).collect();
    let written = record_revocations(Ok(vec![]), &many);
    assert_eq!(written[..2], [0xAC, 0x02]);
    assert_eq!(read_list(Some(&written)).unwrap(), many);
}

#[test]
fn unreadable_revocations_are_reported_and_written_anew() {
    for broken in [vec![5u8, 1], vec![], vec![0xFF; 12]] {
        let words = postcard::from_bytes::<Vec<(String, Vec<u8>)>>(&broken).unwrap_err().to_string();
        match read_list(Some(&broken)) {
            Err(ShardError::SerializationError(m)) => assert_eq!(m, words),
            other => panic!("expected a format error, got {other:?}"),
        }
        let written = record_revocations(read_list(Some(&broken)), &vec![token("r1", &[7])]);
        assert_eq!(read_list(Some(&written)).unwrap(), vec![token("r1", &[7])]);
    }
}

#[test]
fn keyring_is_written_in_the_order_of_names_and_read_back() {
    let mut g = guardian();
    g.register_content_key(&rid("b"), [2u8; 32]);
    g.register_content_key(&rid("a"), [1u8; 32]);
    let data = g.keyring_plaintext();
    let mut expected = vec![2u8, 1, b'a'];
    expected.extend_from_slice(&[1u8; 32]);
    expected.extend_from_slice(&[1, b'b']);
    expected.extend_from_slice(&[2u8; 32]);
    assert_eq!(data, expected);
    let mut fresh = guardian();
    fresh.register_content_key(&rid("gone"), [9u8; 32]);
    assert!(fresh.load_keyring(&data).is_ok());
    assert_eq!(fresh.get_content_key(&rid("a")), Some([1u8; 32]));
    assert_eq!(fresh.get_content_key(&rid("b")), Some([2u8; 32]));
    assert_eq!(fresh.get_content_key(&rid("gone")), None);
    assert_eq!(fresh.keyring_plaintext(), data);
}

#[test]
fn unreadable_keyring_changes_nothing() {
    let mut g = guardian();
    g.register_content_key(&rid("a"), [1u8; 32]);
    let words =
        postcard::from_bytes::<Vec<(String, [u8; 32])>>(&[3, 1]).unwrap_err().to_string();
    match g.load_keyring(&[3, 1]) {
        Err(GuardianError::SerializationError(m)) => assert_eq!(m, words),
        other => panic!("expected a format error, got {other:?}"),
    }
    assert_eq!(g.get_content_key(&rid("a")), Some([1u8; 32]));
}

#[test]
fn later_row_of_a_keyring_wins() {
    let rows = vec![("a", [1u8; 32]), ("a", [2u8; 32])];
    let mut g = guardian();
    assert!(g.load_keyring(&postcard::to_allocvec(&rows).unwrap()).is_ok());
    assert_eq!(g.get_content_key(&rid("a")), Some([2u8; 32]));
}

#[test]
fn revoked_key_is_not_written() {
    let mut g = guardian();
    g.register_content_key(&rid("a"), [1u8; 32]);
    g.register_content_key(&rid("b"), [2u8; 32]);
    assert!(g.begin_revocation(&rid("a")));
    let mut only = guardian();
    only.register_content_key(&rid("b"), [2u8; 32]);
    assert_eq!(g.keyring_plaintext(), only.keyring_plaintext());
}

#[test]
fn next_shard_is_anchored_to_the_promoted_one() {
    let mut g = guardian();
    let mut first = envelope("r1", 1);
    first.signature_hash = vec![42];
    g.note_promoted(first, false);
    assert_eq!(g.wal_bytes_estimate(), 4096);
    let plan = g.plan_promotion(&envelope("r1", 2), 1000).unwrap();
    assert_eq!(plan.anchor, Some(vec![42]));
    assert_eq!(g.plan_promotion(&envelope("r1", 3), 1000).unwrap().anchor, None);
    let mut again = envelope("r1", 1);
    again.signature_hash = vec![43];
    g.note_promoted(again, false);
    assert_eq!(g.wal_bytes_estimate(), 4096);
    assert_eq!(g.plan_promotion(&envelope("r1", 2), 1000).unwrap().anchor, Some(vec![43]));
    g.note_promoted(envelope("r1", 2), false);
    g.note_promoted(envelope("r2", 1), false);
    assert_eq!(g.wal_bytes_estimate(), 3 * 4096);
    g.note_promoted(envelope("r1", 3), true);
    assert!(!g.has_recording(&rid("r1")));
    assert_eq!(g.wal_bytes_estimate(), 4096);
    g.note_finalized(&rid("r2"));
    assert_eq!(g.wal_bytes_estimate(), 0);
}

#[test]
fn chunk_that_does_not_open_hides_no_other() {
    let mut log = Vec::new();
    for fill in [1u8, 2, 3] {
        log.extend(record_chunk(0, &NONCE, &[fill]).unwrap());
    }
    log.extend_from_slice(&record_chunk(0, &NONCE, &[4]).unwrap()[..10]);
    let opened: Vec<Option<u8>> =
        read_chunks(&log).iter().map(|c| c.last().copied().filter(|b| *b != 2)).collect();
    assert_eq!(keep(opened), vec![1, 3]);
    assert_eq!(keep(vec![Some(1), Some(2)]), vec![1, 2]);
    assert_eq!(keep::<u8>(vec![None]), vec![]);
}

fn guardian() -> Guardian {
    Guardian::new("/vault".to_string(), "did:key:zLocal".to_string())
}

fn rid(s: &str) -> String {
    s.to_string()
}

#[test]
fn recording_names_come_from_file_names() {
    assert_eq!(recording_of_file("abc.recording").as_deref(), Some("abc"));
    assert_eq!(recording_of_file("a.b.recording").as_deref(), Some("a.b"));
    assert_eq!(recording_of_file(".recording"), None);
    assert_eq!(recording_of_file("abc.sealed"), None);
}

#[test]
fn logs_are_found_again_after_a_restart() {
    let mut g = guardian();
    let mut contents = encode_frame(0, &NONCE, &[1]);
    let second_at = contents.len() as u64;
    contents.extend(encode_frame(5, &NONCE, &[2]));
    g.hydrate_recording_logs(&vec![
        LogFile {
            owner_dir: "did_key_zOwner".to_string(),
            name: "r1.recording".to_string(),
            path: "/vault/did_key_zOwner/r1.recording".to_string(),
            contents,
        },
        LogFile {
            owner_dir: "did_key_zOwner".to_string(),
            name: "notes.txt".to_string(),
            path: "/vault/did_key_zOwner/notes.txt".to_string(),
            contents: vec![],
        },
    ]);
    assert_eq!(g.list_all_recordings(), vec!["r1"]);
    assert_eq!(g.locate_shard(&rid("r1"), 5).unwrap(), second_at);
    assert_eq!(g.debug_recording_info(&rid("r1")), (2, false));
    assert_eq!(g.manifest_chain_state(&rid("r1")).0, 6);
    match g.locate_shard(&rid("r1"), 7) {
        Err(GuardianError::StorageFailure(m)) => {
            assert_eq!(m, "Shard 7 not found in recording r1")
        }
        other => panic!("expected an error, got {other:?}"),
    }
    match g.locate_shard(&rid("r2"), 7) {
        Err(GuardianError::StorageFailure(m)) => assert_eq!(m, "No recording log for r2"),
        other => panic!("expected an error, got {other:?}"),
    }
}

#[test]
fn a_new_recording_opens_its_log() {
    let mut g = guardian();
    match g.plan_append(&rid("r1"), "did_key_zOwner").unwrap() {
        AppendPlan::OpenLog { dir, path } => {
            assert_eq!(dir, "/vault/did_key_zOwner");
            assert_eq!(path, "/vault/did_key_zOwner/r1.recording");
        }
        other => panic!("expected a new log, got {other:?}"),
    }
    assert!(!g.has_recording(&rid("r1")));
    g.register_log(&rid("r1"), rid("did:key:zOwner"), rid("/p"), &[]);
    assert!(g.has_recording(&rid("r1")));
    assert!(matches!(g.plan_append(&rid("r1"), "x").unwrap(), AppendPlan::LogExists));
    g.note_appended(&rid("r1"), 4, 0).unwrap();
    assert_eq!(g.locate_shard(&rid("r1"), 4).unwrap(), 0);
    match g.note_appended(&rid("r2"), 4, 0) {
        Err(GuardianError::StorageFailure(m)) => {
            assert_eq!(m, "recording log missing after insert")
        }
        other => panic!("expected an error, got {other:?}"),
    }
}

#[test]
fn revoked_recordings_are_forgotten() {
    let mut g = guardian();
    g.register_log(&rid("r1"), rid("did:key:zOwner"), rid("/p"), &[]);
    g.register_content_key(&rid("r1"), [9u8; 32]);
    g.set_recording_metadata(rid("r1"), RecordingOptions { publishable: false }.into_metadata());
    assert_eq!(g.get_content_key(&rid("r1")), Some([9u8; 32]));
    assert!(g.begin_revocation(&rid("r1")));
    assert_eq!(g.get_content_key(&rid("r1")), None);
    let cleanup = g.finish_revocation(&rid("r1"));
    assert_eq!(cleanup.log_path.as_deref(), Some("/p"));
    assert!(cleanup.persist_metadata);
    assert!(!g.has_recording(&rid("r1")));
    match g.plan_append(&rid("r1"), "x") {
        Err(GuardianError::RecordingRevoked(id)) => assert_eq!(id, "r1"),
        other => panic!("expected a refusal, got {other:?}"),
    }
}

#[test]
fn foreign_keys_are_minted_fresh() {
    let mut g = guardian();
    let minted = g.mint_foreign_content_key(&rid("r1"));
    assert!(minted.is_some());
    assert_eq!(g.get_content_key(&rid("r1")), minted);
    assert_ne!(g.mint_foreign_content_key(&rid("r1")), minted);
    assert_ne!(g.get_content_key(&rid("r1")), minted);
    assert!(g.destroy_content_key(&rid("r1")));
    assert!(!g.destroy_content_key(&rid("r1")));
}

#[test]
fn drawn_key_is_kept_and_a_missing_one_changes_nothing() {
    let mut g = guardian();
    assert_eq!(g.keep_drawn_key(&rid("r1"), None), None);
    assert_eq!(g.get_content_key(&rid("r1")), None);
    assert_eq!(g.keep_drawn_key(&rid("r1"), Some([3u8; 32])), Some([3u8; 32]));
    assert_eq!(g.get_content_key(&rid("r1")), Some([3u8; 32]));
    assert_eq!(g.keep_drawn_key(&rid("r1"), None), None);
    assert_eq!(g.get_content_key(&rid("r1")), Some([3u8; 32]));
    assert_eq!(g.keep_drawn_key(&rid("r1"), Some([4u8; 32])), Some([4u8; 32]));
    assert_eq!(g.get_content_key(&rid("r1")), Some([4u8; 32]));
    assert_eq!(g.get_content_key(&rid("r2")), None);
}

#[test]
fn stored_key_comes_before_the_derived_one() {
    let mut g = guardian();
    assert_eq!(g.resolve_encryption_key(&rid("r1"), [1u8; 32]), [1u8; 32]);
    g.register_content_key(&rid("r1"), [2u8; 32]);
    assert_eq!(g.resolve_encryption_key(&rid("r1"), [1u8; 32]), [2u8; 32]);
}

#[test]
fn sealed_files_stand_beside_the_logs() {
    let (dir, path) = guardian().sealed_file("did_key_zOwner", "r1");
    assert_eq!(dir, "/vault/did_key_zOwner");
    assert_eq!(path, "/vault/did_key_zOwner/r1.sealed");
}

#[test]
fn deleted_log_leaves_its_path() {
    let mut g = guardian();
    g.register_log(&rid("r1"), rid("o"), rid("/p"), &[]);
    assert_eq!(g.debug_delete_recording(&rid("r1")).as_deref(), Some("/p"));
    assert_eq!(g.debug_delete_recording(&rid("r1")), None);
}

#[test]
fn broken_causality_is_a_chain_violation() {
    let words = "Causality Break: hash mismatch".to_string();
    let other = "disk full".to_string();
    match promotion_error(&ShardError::InvalidConfiguration(words.clone()), &words) {
        GuardianError::ChainIntegrityViolation(m) => assert_eq!(m, words),
        e => panic!("expected a violation, got {e:?}"),
    }
    for error in [ShardError::InvalidConfiguration(other.clone()), ShardError::Other(words)] {
        match promotion_error(&error, &other) {
            GuardianError::VerificationFailed(m) => assert_eq!(m, other),
            e => panic!("expected a failed verification, got {e:?}"),
        }
    }
}

#[test]
fn vault_is_listed_line_by_line() {
    let mut g = guardian();
    g.register_log(&rid("r1"), rid("o"), rid("/p"), &encode_frame(0, &NONCE, &[1]));
    g.register_content_key(&rid("r1"), [0u8; 32]);
    let lines = vault_listing(
        &g,
        &vec![
            VaultEntry::File { name: rid("salt.bin") },
            VaultEntry::Dir {
                name: rid("owner"),
                files: vec![
                    SubFile {
                        name: rid("r1.recording"),
                        size: 18,
                        preview: Preview::Contents((0..18).collect()),
                    },
                    SubFile { name: rid("x"), size: 2, preview: Preview::Unreadable(rid("no")) },
                ],
            },
        ],
    );
    assert_eq!(
        lines,
        vec![
            "RECORDING_LOGS: 1 entries",
            "  LOG: r1 (1 shards, has_key=true)",
            "FILE: salt.bin",
            "RAW_BYTES(r1.recording): [00 01 02 03 04 05 06 07 08 09 0a 0b 0c 0d 0e 0f] (total 18 bytes)",
            "DIR: owner -> [r1.recording(18B), x(2B)]",
        ]
    );
}
