use phalanx_node::actors::playback::{
    frame_interval, request_shards_from_providers, video_action, Decoded, Fetched, PlaybackAction, PlaybackCoordinator,
    MAX_CONSECUTIVE_GAPS, MAX_RETRIES,
};
use phalanx_node::actors::retrieval_request::SealedLocator;
use phalanx_node::identity::{generate_from, verify_retrieval_auth};

fn video(payload: Decoded) -> Fetched {
    Fetched::Video { timestamp_ms: 1000, fps: 10, payload }
}

#[test]
fn frames_are_stamped_one_by_one() {
    let mut player = PlaybackCoordinator::new();
    let data = postcard::to_allocvec(&vec![vec![7u8], vec![8u8, 9u8]]).unwrap();
    match player.on_fetched(video(Decoded::Data(data))) {
        PlaybackAction::SendFrames { sequence, chunks } => {
            assert_eq!(sequence, 1);
            let mut first = 1000u64.to_le_bytes().to_vec();
            first.push(7);
            let mut second = 1100u64.to_le_bytes().to_vec();
            second.extend_from_slice(&[8, 9]);
            assert_eq!(chunks, vec![first, second]);
        }
        other => panic!("expected frames, got {other:?}"),
    }
    assert!(matches!(player.frames_sent(2, 2), PlaybackAction::Fetch));
    assert_eq!(player.stats.video_sent, 2);
    assert_eq!(player.stats.shards_found, 1);
    assert_eq!(player.current_sequence, 2);
}

#[test]
fn refused_frame_ends_the_playback() {
    let mut player = PlaybackCoordinator::new();
    let data = postcard::to_allocvec(&vec![vec![7u8], vec![8u8]]).unwrap();
    assert!(matches!(
        player.on_fetched(video(Decoded::Data(data))),
        PlaybackAction::SendFrames { .. }
    ));
    assert!(matches!(player.frames_sent(1, 2), PlaybackAction::Finish));
    assert!(player.finished);
    assert_eq!(player.stats.video_sent, 1);
}

#[test]
fn undivided_payload_is_sent_as_it_is() {
    let mut player = PlaybackCoordinator::new();
    match player.on_fetched(video(Decoded::Data(vec![0xFF, 0xFF]))) {
        PlaybackAction::SendRaw { sequence, chunk } => {
            assert_eq!(sequence, 1);
            let mut expected = 1000u64.to_le_bytes().to_vec();
            expected.extend_from_slice(&[0xFF, 0xFF]);
            assert_eq!(chunk, expected);
        }
        other => panic!("expected the payload, got {other:?}"),
    }
    assert!(matches!(player.raw_sent(true), PlaybackAction::Fetch));
    assert_eq!(player.stats.video_sent, 1);
    assert!(matches!(player.raw_sent(false), PlaybackAction::Finish));
    assert!(player.finished);
}

#[test]
fn time_stamps_wrap_around() {
    let action = video_action(3, u64::MAX, 1000, &vec![], Some(vec![vec![], vec![]]));
    match action {
        PlaybackAction::SendFrames { sequence, chunks } => {
            assert_eq!(sequence, 3);
            assert_eq!(chunks[0], u64::MAX.to_le_bytes().to_vec());
            assert_eq!(chunks[1], 0u64.to_le_bytes().to_vec());
        }
        other => panic!("expected frames, got {other:?}"),
    }
}

#[test]
fn intervals_follow_the_rate() {
    assert_eq!(frame_interval(30), 33);
    assert_eq!(frame_interval(10), 100);
    assert_eq!(frame_interval(0), 33);
    assert_eq!(frame_interval(2000), 0);
}

#[test]
fn audio_chunk_is_readable() {
    let mut player = PlaybackCoordinator::new();
    let fetched =
        Fetched::Audio { sample_rate: 16000, channels: 2, payload: Decoded::Data(vec![1, 2]) };
    match player.on_fetched(fetched) {
        PlaybackAction::SendAudio { sequence, chunk } => {
            assert_eq!(sequence, 1);
            assert_eq!(chunk[..4], 16000u32.to_le_bytes());
            assert_eq!(chunk[4..], [2, 0, 1, 2]);
        }
        other => panic!("expected samples, got {other:?}"),
    }
    assert!(matches!(player.audio_sent(true), PlaybackAction::Fetch));
    assert_eq!(player.stats.audio_sent, 1);
}

#[test]
fn refused_audio_ends_the_playback() {
    let mut player = PlaybackCoordinator::new();
    player.on_fetched(Fetched::Audio {
        sample_rate: 1,
        channels: 1,
        payload: Decoded::Data(vec![]),
    });
    assert!(matches!(player.audio_sent(false), PlaybackAction::Finish));
    assert!(player.finished);
    assert_eq!(player.stats.audio_sent, 0);
}

#[test]
fn shards_without_media_are_passed() {
    let mut player = PlaybackCoordinator::new();
    assert!(matches!(player.on_fetched(Fetched::Marker), PlaybackAction::Fetch));
    assert!(matches!(player.on_fetched(video(Decoded::Missing)), PlaybackAction::Fetch));
    assert!(matches!(player.on_fetched(video(Decoded::Failed)), PlaybackAction::Fetch));
    assert_eq!(player.stats.shards_found, 3);
    assert_eq!(player.stats.decode_failures, 1);
    assert_eq!(player.current_sequence, 4);
}

#[test]
fn patience_ends_with_the_hundredth_absence() {
    let mut player = PlaybackCoordinator::new();
    let limit = MAX_RETRIES * MAX_CONSECUTIVE_GAPS;
    for n in 1..limit {
        let action = player.on_fetched(Fetched::NotFound);
        assert!(!player.finished, "absence {n} is not the last");
        if n % MAX_RETRIES == 0 {
            assert!(matches!(action, PlaybackAction::Fetch));
        } else {
            assert!(matches!(action, PlaybackAction::Discover { .. }));
        }
    }
    assert!(matches!(player.on_fetched(Fetched::NotFound), PlaybackAction::Finish));
    assert!(player.finished);
    assert_eq!(player.stats.shards_missing, MAX_CONSECUTIVE_GAPS);
    assert_eq!(player.current_sequence, 1 + MAX_CONSECUTIVE_GAPS);
}

#[test]
fn a_found_shard_renews_patience() {
    let mut player = PlaybackCoordinator::new();
    for _ in 0..97 {
        player.on_fetched(Fetched::NotFound);
    }
    player.on_fetched(Fetched::Marker);
    assert_eq!(player.consecutive_gaps, 0);
    assert_eq!(player.retry_count, 0);
    for _ in 0..99 {
        player.on_fetched(Fetched::NotFound);
        assert!(!player.finished);
    }
}

#[test]
fn every_provider_gets_the_signed_request() {
    let (keys, _) = generate_from(&[4u8; 16]);
    let providers = vec!["a".to_string(), "b".to_string()];
    let ask = |locator| {
        request_shards_from_providers(
            &"rec-1".to_string(),
            &providers,
            locator,
            &"did:key:zMe".to_string(),
            &keys.signing_secret,
        )
    };
    let requests = ask(Some(SealedLocator::Ready(vec![5, 6])));
    assert_eq!(requests.len(), 2);
    assert_eq!(requests[0].target, "a");
    assert_eq!(requests[1].target, "b");
    for r in &requests {
        assert_eq!(r.request.recording_id, "rec-1");
        assert!(verify_retrieval_auth(
            Some(keys.public_key),
            &r.request.target_did,
            &r.request.recording_id,
            &r.request.locator,
            &r.request.signature,
        )
        .is_ok());
    }
    assert!(ask(None).is_empty());
    assert!(ask(Some(SealedLocator::SealFailed("x".to_string()))).is_empty());
    assert!(ask(Some(SealedLocator::SerializeFailed("x".to_string()))).is_empty());
}
