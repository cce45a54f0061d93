use phalanx_node::evidence::GuardianError;
use phalanx_node::persistence::vault::ledger::StorageLedger;
use phalanx_node::persistence::vault::metadata::{
    RecordingMetadataStore, RecordingOptions, RECORDING_METADATA_VERSION,
};

fn foreign() -> String {
    "did:key:z6MkForeign".to_string()
}

#[test]
fn mod_test_storage_ledger_defaults_to_zero() {
    let ledger = StorageLedger::default();
    assert_eq!(ledger.own_bytes, 0);
    assert_eq!(ledger.foreign_committed_bytes, 0);
    assert_eq!(ledger.foreign_transient_bytes, 0);
    assert_eq!(ledger.own_bytes_pushed, 0);
    assert_eq!(ledger.total_foreign_bytes(), 0);
    assert_eq!(ledger.total_local_bytes(), 0);
}

#[test]
fn vault_test_storage_ledger_defaults_to_zero() {
    let ledger = StorageLedger::new();
    assert_eq!(ledger.own_bytes, 0);
    assert_eq!(ledger.foreign_committed_bytes, 0);
    assert_eq!(ledger.foreign_transient_bytes, 0);
    assert_eq!(ledger.own_bytes_pushed, 0);
    assert_eq!(ledger.total_foreign_bytes(), 0);
    assert_eq!(ledger.total_local_bytes(), 0);
}

fn own_ingestion_tracking() {
    let mut ledger = StorageLedger::default();
    ledger.record_own_ingestion(1000);
    assert_eq!(ledger.own_bytes, 1000);
    assert_eq!(ledger.total_local_bytes(), 1000);

    ledger.record_own_ingestion(500);
    assert_eq!(ledger.own_bytes, 1500);
    assert_eq!(ledger.total_foreign_bytes(), 0, "Foreign should be unaffected");
}

#[test]
fn mod_test_storage_ledger_own_ingestion_tracking() {
    own_ingestion_tracking();
}

#[test]
fn vault_test_storage_ledger_own_ingestion_tracking() {
    own_ingestion_tracking();
}

fn foreign_ingestion_is_transient() {
    let mut ledger = StorageLedger::default();
    ledger.record_foreign_ingestion(2000, &foreign());

    assert_eq!(ledger.foreign_transient_bytes, 2000);
    assert_eq!(ledger.foreign_committed_bytes, 0);
    assert_eq!(ledger.total_foreign_bytes(), 2000);
    assert_eq!(ledger.total_local_bytes(), 2000);
}

#[test]
fn mod_test_storage_ledger_foreign_ingestion_is_transient() {
    foreign_ingestion_is_transient();
}

#[test]
fn vault_test_storage_ledger_foreign_ingestion_is_transient() {
    foreign_ingestion_is_transient();
}

fn promote_transient_to_committed() {
    let mut ledger = StorageLedger::default();
    ledger.record_foreign_ingestion(3000, &foreign());

    ledger.promote_to_committed(1000);
    assert_eq!(ledger.foreign_transient_bytes, 2000);
    assert_eq!(ledger.foreign_committed_bytes, 1000);
    assert_eq!(ledger.total_foreign_bytes(), 3000, "Total foreign unchanged");

    // More than there is: only what there is moves.
    ledger.promote_to_committed(5000);
    assert_eq!(ledger.foreign_transient_bytes, 0);
    assert_eq!(ledger.foreign_committed_bytes, 3000);
}

#[test]
fn mod_test_storage_ledger_promote_transient_to_committed() {
    promote_transient_to_committed();
}

#[test]
fn vault_test_storage_ledger_promote_transient_to_committed() {
    promote_transient_to_committed();
}

fn own_push_tracking() {
    let mut ledger = StorageLedger::default();
    ledger.record_own_push(500);
    assert_eq!(ledger.own_bytes_pushed, 500);
    ledger.record_own_push(300);
    assert_eq!(ledger.own_bytes_pushed, 800);
}

#[test]
fn mod_test_storage_ledger_own_push_tracking() {
    own_push_tracking();
}

#[test]
fn vault_test_storage_ledger_own_push_tracking() {
    own_push_tracking();
}

fn evict_transient() {
    let mut ledger = StorageLedger::default();
    ledger.record_foreign_ingestion(5000, &foreign());

    ledger.evict_transient(2000);
    assert_eq!(ledger.foreign_transient_bytes, 3000);

    // More than there is: nothing underflows.
    ledger.evict_transient(10000);
    assert_eq!(ledger.foreign_transient_bytes, 0);
}

#[test]
fn mod_test_storage_ledger_evict_transient() {
    evict_transient();
}

#[test]
fn vault_test_storage_ledger_evict_transient() {
    evict_transient();
}

fn combined_accounting() {
    let mut ledger = StorageLedger::default();

    ledger.record_own_ingestion(10_000);
    ledger.record_foreign_ingestion(8_000, &foreign());
    ledger.promote_to_committed(3_000);
    ledger.record_own_push(6_000);

    assert_eq!(ledger.own_bytes, 10_000);
    assert_eq!(ledger.foreign_committed_bytes, 3_000);
    assert_eq!(ledger.foreign_transient_bytes, 5_000);
    assert_eq!(ledger.own_bytes_pushed, 6_000);
    assert_eq!(ledger.total_foreign_bytes(), 8_000);
    assert_eq!(ledger.total_local_bytes(), 18_000);

    ledger.evict_transient(5_000);
    assert_eq!(ledger.total_foreign_bytes(), 3_000);
    assert_eq!(ledger.total_local_bytes(), 13_000);
}

#[test]
fn mod_test_storage_ledger_combined_accounting() {
    combined_accounting();
}

#[test]
fn vault_test_storage_ledger_combined_accounting() {
    combined_accounting();
}

#[test]
fn test_storage_ledger_per_owner_tracking() {
    let mut ledger = StorageLedger::default();
    let owner_a = "did:key:z6MkOwnerA".to_string();
    let owner_b = "did:key:z6MkOwnerB".to_string();

    ledger.record_foreign_ingestion(1000, &owner_a);
    ledger.record_foreign_ingestion(2000, &owner_b);
    ledger.record_foreign_ingestion(500, &owner_a);

    assert_eq!(ledger.foreign_bytes_for_owner(&owner_a), 1500);
    assert_eq!(ledger.foreign_bytes_for_owner(&owner_b), 2000);
    assert_eq!(ledger.total_foreign_bytes(), 3500);

    let owner_c = "did:key:z6MkOwnerC".to_string();
    assert_eq!(ledger.foreign_bytes_for_owner(&owner_c), 0);
}

#[test]
fn defaults_to_publishable_when_absent() {
    let store = RecordingMetadataStore::default();
    assert!(store.is_publishable(&"ghost".to_string()));
}

#[test]
fn explicit_unpublishable_is_observed() {
    let mut store = RecordingMetadataStore::default();
    let rid = "private".to_string();
    store.insert(rid.clone(), RecordingOptions { publishable: false }.into_metadata());
    assert!(!store.is_publishable(&rid));
}

#[test]
fn removed_policy_falls_back_to_publishable() {
    let mut store = RecordingMetadataStore::default();
    let rid = "private".to_string();
    store.insert(rid.clone(), RecordingOptions { publishable: false }.into_metadata());
    assert_eq!(store.remove(&rid), Some(RecordingOptions { publishable: false }.into_metadata()));
    assert_eq!(store.remove(&rid), None);
    assert!(store.is_publishable(&rid));
}

#[test]
fn eviction_lowers_the_count_of_the_owner() {
    let mut ledger = StorageLedger::default();
    let a = "did:key:z6MkOwnerA".to_string();
    ledger.record_foreign_ingestion(5000, &a);
    ledger.evict_transient(2000);
    assert_eq!(ledger.foreign_transient_bytes, 3000);
    assert_eq!(ledger.foreign_bytes_for_owner(&a), 3000);
}

#[test]
fn owner_counts_add_up_after_every_step() {
    let mut ledger = StorageLedger::default();
    let a = "did:key:zA".to_string();
    let b = "did:key:zB".to_string();
    let c = "did:key:zC".to_string();
    let sum = |l: &StorageLedger| {
        l.foreign_bytes_for_owner(&a) + l.foreign_bytes_for_owner(&b)
            + l.foreign_bytes_for_owner(&c)
    };
    ledger.record_foreign_ingestion(100, &a);
    ledger.record_foreign_ingestion(200, &b);
    ledger.record_foreign_ingestion(300, &c);
    ledger.record_foreign_ingestion(50, &a);
    ledger.promote_to_committed(150);
    assert_eq!(sum(&ledger), ledger.total_foreign_bytes());
    ledger.evict_transient(250);
    assert_eq!(ledger.foreign_bytes_for_owner(&a), 0);
    assert_eq!(ledger.foreign_bytes_for_owner(&b), 100);
    assert_eq!(ledger.foreign_bytes_for_owner(&c), 300);
    assert_eq!(sum(&ledger), ledger.total_foreign_bytes());
    ledger.evict_transient(1_000_000);
    assert_eq!(ledger.foreign_committed_bytes, 150);
    assert_eq!(ledger.foreign_transient_bytes, 0);
    assert_eq!(sum(&ledger), 150);
}

#[test]
fn persist_round_trips_through_disk() {
    let mut store = RecordingMetadataStore::default();
    store.insert("public".to_string(), RecordingOptions::default().into_metadata());
    store.insert("private".to_string(), RecordingOptions { publishable: false }.into_metadata());
    let written = store.plaintext();
    let version = RECORDING_METADATA_VERSION;
    let rows = vec![("private", version, false), ("public", version, true)];
    assert_eq!(written, postcard::to_allocvec(&rows).unwrap());

    let mut loaded = RecordingMetadataStore::default();
    assert!(loaded.load(Some(&written)).is_ok());
    assert!(loaded.is_publishable(&"public".to_string()));
    assert!(!loaded.is_publishable(&"private".to_string()));
    assert_eq!(loaded.map.get(&"private".to_string()).unwrap().schema_version, version);

    // The version is pinned by the options.
    let pinned = RecordingOptions::default().into_metadata();
    assert_eq!(pinned.schema_version, RECORDING_METADATA_VERSION);
}

#[test]
fn other_versions_are_read_as_they_are() {
    let written = postcard::to_allocvec(&vec![("old", 9u8, false)]).unwrap();
    let mut store = RecordingMetadataStore::default();
    assert!(store.load(Some(&written)).is_ok());
    assert_eq!(store.map.get(&"old".to_string()).unwrap().schema_version, 9);
    assert_eq!(store.plaintext(), written);
}

#[test]
fn missing_file_loads_as_empty_map() {
    let mut store = RecordingMetadataStore::default();
    assert!(store.load(None).is_ok());
    assert!(store.is_publishable(&"anything".to_string()));

    store.insert("private".to_string(), RecordingOptions { publishable: false }.into_metadata());
    assert!(store.load(None).is_ok());
    assert!(store.is_publishable(&"private".to_string()));
}

#[test]
fn unreadable_policies_change_nothing() {
    let mut store = RecordingMetadataStore::default();
    store.insert("private".to_string(), RecordingOptions { publishable: false }.into_metadata());
    let words = postcard::from_bytes::<Vec<(String, u8, bool)>>(&[1, 1, b'x', 1, 7])
        .unwrap_err()
        .to_string();
    match store.load(Some(&[1, 1, b'x', 1, 7])) {
        Err(GuardianError::SerializationError(m)) => assert_eq!(m, words),
        other => panic!("expected a format error, got {other:?}"),
    }
    assert!(!store.is_publishable(&"private".to_string()));
}
