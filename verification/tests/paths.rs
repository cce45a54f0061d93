use phalanx_node::clock::{TimeError, TrustedClock};
use phalanx_node::engine::{EngineEnd, EngineLifecycle, ShutdownError};
use phalanx_node::actors::shutdown::ShutdownSignal;
use phalanx_node::artifacts::ArtifactSink;
use phalanx_node::paths::{
    application, join_path, NodePaths, PathError, DEV_DEFAULT_VAULT_PATH, HOME_ENV,
};
use phalanx_node::psk::{generate_swarm_key, load_swarm_key};
use std::time::{SystemTime, UNIX_EPOCH};

#[test]
fn home_env_override_is_used_verbatim() {
    let base = NodePaths::resolve_base(Some("/srv/phalanx".to_string())).expect("resolves");
    assert_eq!(base, "/srv/phalanx");
}

#[test]
fn platform_dir_used_when_no_override() {
    let base = NodePaths::resolve_base(None).expect("platform dir resolves");
    assert!(std::path::Path::new(&base).is_absolute(), "platform base must be absolute: {base:?}");
    assert_ne!(base, DEV_DEFAULT_VAULT_PATH);
    assert!(base.contains("phalanx-sentinel"), "the application names the directory: {base}");
}

#[test]
fn accessors_derive_under_base() {
    let paths = NodePaths { base: "/data/phx".to_string() };
    assert_eq!(paths.base(), "/data/phx");
    assert_eq!(paths.vault(), "/data/phx/vault");
    assert_eq!(paths.identity(), "/data/phx/identity.bin");
    assert_eq!(paths.swarm_key(), "/data/phx/swarm.key");
    assert_eq!(paths.wal(), "/data/phx/sentinel_transient_wal.bin");
    assert_eq!(paths.log_dir(), "/data/phx/logs");
    assert_eq!(paths.required_dirs(), vec!["/data/phx", "/data/phx/vault", "/data/phx/logs"]);
}

#[test]
fn without_any_directory_there_is_an_error() {
    assert_eq!(NodePaths::choose_base(None, Some(Ok("/p".into()))).unwrap(), "/p");
    assert_eq!(NodePaths::choose_base(Some("/h".into()), Some(Ok("/p".into()))).unwrap(), "/h");
    assert_eq!(NodePaths::choose_base(Some("/h".into()), None).unwrap(), "/h");
    let garbled = NodePaths::choose_base(None, Some(Err("/p\u{FFFD}".into()))).unwrap_err();
    assert_eq!(
        garbled.message(),
        "data directory /p\u{FFFD} has no name in text; set PHALANX_HOME to choose another"
    );
    let missing = NodePaths::choose_base(None, None).unwrap_err();
    assert_eq!(
        missing.message(),
        format!("no platform data directory available; set {HOME_ENV} to choose one")
    );
    let failed = PathError::CreateFailed { path: "/x".into(), source: "denied".into() };
    assert_eq!(failed.message(), "failed to create data directory /x: denied");
}

#[test]
fn platform_knows_the_node_by_its_names() {
    let (qualifier, organization, name) = application();
    assert_eq!(
        (qualifier.as_str(), organization.as_str(), name.as_str()),
        ("app", "Phalanx", "phalanx-sentinel")
    );
}

#[test]
fn unset_vault_goes_under_the_base() {
    let paths = NodePaths { base: "/data/phx".to_string() };
    assert_eq!(paths.vault_location(&DEV_DEFAULT_VAULT_PATH.to_string()), "/data/phx/vault");
    assert_eq!(paths.vault_location(&"/mnt/vault".to_string()), "/mnt/vault");
}

#[test]
fn joining_adds_one_separator() {
    assert_eq!(join_path("a", "b"), "a/b");
    assert_eq!(join_path("a/", "b"), "a/b");
    assert_eq!(join_path("", "b"), "b");
    assert_eq!(join_path("a", "/b"), "/b");
    assert_eq!(join_path("a", ""), "a/");
    let sink = ArtifactSink { file_path: join_path("out", "clip.mp4") };
    assert_eq!(sink.file_path, "out/clip.mp4");
}

#[test]
fn swarm_key_has_thirty_two_bytes() {
    assert_eq!(load_swarm_key(&[9u8; 32]), Some([9u8; 32]));
    assert_eq!(load_swarm_key(&[9u8; 31]), None);
    assert_eq!(load_swarm_key(&[9u8; 33]), None);
    assert_eq!(load_swarm_key(&[]), None);
}

#[test]
fn swarm_keys_are_fresh() {
    let a = generate_swarm_key().expect("randomness");
    let b = generate_swarm_key().expect("randomness");
    assert_ne!(a, b);
    assert_ne!(a, [0u8; 32]);
}

#[test]
fn test_clock_skew_correction() {
    let mut clock = TrustedClock::new();
    clock.set_offset(10_000);

    let local_sys_time = SystemTime::now().duration_since(UNIX_EPOCH).unwrap().as_secs();
    let adjusted_time = clock.now(Some(local_sys_time)).unwrap();
    assert!(
        adjusted_time >= local_sys_time + 9,
        "Clock did not apply positive offset correctly"
    );
    assert_eq!(adjusted_time, local_sys_time + 10);
}

#[test]
fn offset_rounds_towards_zero_and_time_stays_positive() {
    let mut clock = TrustedClock::default();
    clock.set_offset(-1_999);
    assert_eq!(clock.now(Some(100)).unwrap(), 99);
    clock.set_offset(1_999);
    assert_eq!(clock.now(Some(100)).unwrap(), 101);
    clock.set_offset(i64::MIN);
    assert_eq!(clock.now(Some(100)).unwrap(), 0);
    assert!(matches!(clock.now(None), Err(TimeError::ClockSkew)));
}

#[test]
fn synchronised_clock_shows_network_time() {
    let mut clock = TrustedClock::new();
    clock.synchronize(1_000, Some(1_300)).unwrap();
    assert_eq!(clock.offset_ms, -300_000);
    assert_eq!(clock.now(Some(1_300)).unwrap(), 1_000);
    clock.synchronize(2_000, Some(1_300)).unwrap();
    assert_eq!(clock.now(Some(1_301)).unwrap(), 2_001);
    assert!(matches!(clock.synchronize(5, None), Err(TimeError::ClockSkew)));
    assert_eq!(clock.offset_ms, 700_000);
}

#[test]
fn cancel_is_idempotent() {
    let mut signal = ShutdownSignal::new();
    assert!(!signal.is_cancelled());
    signal.cancel();
    assert!(signal.is_cancelled());
    signal.cancel();
    assert!(signal.is_cancelled());
}

#[test]
fn engine_is_stopped_once() {
    let mut lifecycle = EngineLifecycle::new();
    assert_eq!(lifecycle.begin_shutdown(), (true, true));
    assert_eq!(lifecycle.begin_shutdown(), (false, false));
    assert!(!lifecycle.on_drop());

    let mut dropped = EngineLifecycle::new();
    assert!(dropped.on_drop());
    assert!(!dropped.on_drop());
}

#[test]
fn engine_shutdown_reports_what_went_wrong() {
    assert!(EngineLifecycle::shutdown(None, 10).is_ok());
    assert!(EngineLifecycle::shutdown(Some(EngineEnd::Drained), 10).is_ok());
    match EngineLifecycle::shutdown(Some(EngineEnd::JoinFailed("panic".into())), 10) {
        Err(ShutdownError::Join(e)) => assert_eq!(e, "panic"),
        other => panic!("expected a join error, got {other:?}"),
    }
    assert!(matches!(
        EngineLifecycle::shutdown(Some(EngineEnd::TimedOut), 10),
        Err(ShutdownError::Timeout(10))
    ));
}
