use phalanx_node::config::HardwareConfig;
use phalanx_node::hardware::audio::{AudioProcessor, PhalanxAudioThread};
use phalanx_node::hardware::camera::{
    compute_adaptive_interval, target_fps, BatchAction, CameraDriver, CameraProcessor, Fps,
    PhalanxCameraThread, ShardOutcome,
};
use phalanx_node::hardware::discovery::{HardwareScanner, SensorEntry};
use phalanx_node::power::PowerState;

#[test]
fn test_target_fps_normal_returns_base() {
    assert_eq!(target_fps(Fps::new(30), PowerState::Normal).get(), 30);
}

#[test]
fn test_target_fps_conserving_halves() {
    assert_eq!(target_fps(Fps::new(30), PowerState::Conserving).get(), 15);
}

#[test]
fn test_target_fps_leaf_fifths() {
    assert_eq!(target_fps(Fps::new(30), PowerState::Leaf).get(), 6);
}

#[test]
fn test_target_fps_dormant_zero() {
    assert_eq!(target_fps(Fps::new(30), PowerState::Dormant).get(), 0);
}

#[test]
fn test_target_fps_floor_guard() {
    assert_eq!(
        target_fps(Fps::new(4), PowerState::Leaf).get(),
        1,
        "Floor guard: 4/5=0 should clamp to 1"
    );
}

#[test]
fn test_target_fps_conserving_floor_guard() {
    assert_eq!(
        target_fps(Fps::new(1), PowerState::Conserving).get(),
        1,
        "Floor guard: 1/2=0 should clamp to 1"
    );
}

#[test]
fn test_adaptive_interval_ramp_up_instant() {
    let result = compute_adaptive_interval(100, Fps::new(30));
    assert_eq!(result, 33, "Ramp UP should be instant");
}

#[test]
fn test_adaptive_interval_ramp_down_smooth() {
    let result = compute_adaptive_interval(33, Fps::new(10));
    assert!(result > 33 && result < 100, "Ramp DOWN should blend, got {result:?}");
    assert_eq!(result, 66);
}

#[test]
fn test_adaptive_interval_dormant_returns_sentinel() {
    let result = compute_adaptive_interval(33, Fps::zero());
    assert_eq!(result, 3600 * 1000, "Dormant should return large sentinel");
}

#[test]
fn equal_interval_is_kept() {
    assert_eq!(compute_adaptive_interval(100, Fps::new(10)), 100);
}

#[test]
fn rates_are_never_zero_by_accident() {
    assert_eq!(Fps::new(0).get(), 1);
    assert_eq!(Fps::new(30).as_interval(), Some(33));
    assert_eq!(Fps::zero().as_interval(), None);
}

#[test]
fn driver_stamps_by_elapsed_time() {
    let mut driver = CameraDriver::connect(50, 1_000);
    assert_eq!(driver.fps_interval_ms, 20);
    let first = driver.capture_frame(20);
    let second = driver.capture_frame(41);
    assert_eq!(second.timestamp - first.timestamp, 21);
    assert_eq!(first.sequence, 1);
    assert_eq!(second.sequence, 2);
    assert_eq!(first.data.len(), 640 * 480 * 3);
    assert_eq!(first.data[0], 0);
    assert_eq!(second.data[0], 1);
    assert!(second.data[1..].iter().all(|b| *b == 0));
}

#[test]
fn watchdog_starts_once() {
    let config = HardwareConfig { camera_fps: 10, audio_sample_rate: 44100, audio_channels: 2 };
    let mut camera = PhalanxCameraThread::new(&config);
    assert_eq!(camera.buffer, 20);
    assert!(camera.start_watchdog());
    assert!(!camera.start_watchdog());
    camera.stop();
    assert!(camera.start_watchdog());

    let mut audio = PhalanxAudioThread::new(&config);
    assert_eq!(audio.sample_rate, 44100);
    assert_eq!(audio.channels, 2);
    assert!(audio.start_watchdog());
    assert!(!audio.start_watchdog());
    audio.stop();
    assert!(!audio.running);
}

#[test]
fn frames_are_batched_by_the_second() {
    let mut processor = CameraProcessor::new(Fps::new(3));
    for i in 0..2u8 {
        assert!(matches!(processor.on_frame(None, Some(vec![i])), BatchAction::Waiting));
    }
    match processor.on_frame(None, Some(vec![2])) {
        BatchAction::Emit { frames, sequence_id, fps } => {
            assert_eq!(frames, vec![vec![0], vec![1], vec![2]]);
            assert_eq!(sequence_id, 0);
            assert_eq!(fps, Fps::new(3));
        }
        other => panic!("expected a batch, got {other:?}"),
    }
    assert!(!processor.settle(ShardOutcome::Sent));
    assert_eq!(processor.sequence_id, 1);
}

#[test]
fn less_power_makes_smaller_batches_and_dormant_drops() {
    let mut processor = CameraProcessor::new(Fps::new(10));
    assert!(matches!(
        processor.on_frame(Some(PowerState::Dormant), Some(vec![1])),
        BatchAction::Dropped
    ));
    assert!(!processor.captures(Some(PowerState::Dormant)));
    assert!(processor.captures(None));
    assert!(processor.frames.is_empty());
    assert!(matches!(
        processor.on_frame(Some(PowerState::Leaf), Some(vec![1])),
        BatchAction::Waiting
    ));
    // A frame that could not be compressed still lets a full batch go.
    match processor.on_frame(Some(PowerState::Leaf), Some(vec![2])) {
        BatchAction::Emit { frames, fps, .. } => {
            assert_eq!(frames.len(), 2);
            assert_eq!(fps, Fps::new(2));
        }
        other => panic!("expected a batch, got {other:?}"),
    }
    assert!(matches!(processor.on_frame(Some(PowerState::Leaf), None), BatchAction::Waiting));
}

#[test]
fn captured_frames_survive_changes_of_power() {
    let mut processor = CameraProcessor::new(Fps::new(4));
    let powers = [
        Some(PowerState::Normal),
        Some(PowerState::Conserving),
        None,
        Some(PowerState::Leaf),
        Some(PowerState::Normal),
        None,
    ];
    let mut handed_on: Vec<Vec<u8>> = Vec::new();
    for i in 0..12u8 {
        let jpeg = if i == 5 { None } else { Some(vec![i]) };
        match processor.on_frame(powers[i as usize % powers.len()], jpeg) {
            BatchAction::Emit { frames, .. } => handed_on.extend(frames),
            BatchAction::Waiting => {}
            BatchAction::Dropped => panic!("no state was dormant"),
        }
    }
    handed_on.extend(processor.frames);
    let expected: Vec<Vec<u8>> = (0..12u8).filter(|i| *i != 5).map(|i| vec![i]).collect();
    assert_eq!(handed_on, expected);
}

#[test]
fn sequence_is_reused_only_after_failed_encryption() {
    let mut processor = CameraProcessor::new(Fps::new(1));
    assert!(!processor.settle(ShardOutcome::EncryptFailed));
    assert_eq!(processor.sequence_id, 0);
    assert!(!processor.settle(ShardOutcome::EncodeFailed));
    assert_eq!(processor.sequence_id, 1);
    assert!(processor.settle(ShardOutcome::ChannelClosed));
    assert_eq!(processor.sequence_id, 1);
}

#[test]
fn audio_is_batched_by_the_second() {
    let config = HardwareConfig { camera_fps: 30, audio_sample_rate: 4, audio_channels: 1 };
    let mut processor = AudioProcessor::new(&config);
    assert_eq!(processor.bytes_per_sec, 8);
    assert_eq!(processor.on_frame(&[1, 2, 3, 4, 5]), None);
    assert_eq!(
        processor.on_frame(&[6, 7, 8, 9]),
        Some(vec![1, 2, 3, 4, 5, 6, 7, 8, 9])
    );
    assert!(processor.samples.is_empty());
    assert!(!processor.settle(ShardOutcome::Sent));
    assert_eq!(processor.sequence_id, 1);
    assert!(!processor.settle(ShardOutcome::EncryptFailed));
    assert_eq!(processor.sequence_id, 1);
    assert!(processor.settle(ShardOutcome::ChannelClosed));
}

fn entry(path: &str, kind: Option<&str>) -> SensorEntry {
    SensorEntry { path: path.to_string(), kind: kind.map(|k| k.to_string()) }
}

#[test]
fn scan_takes_the_first_matching_sensors() {
    let zones = vec![
        entry("/sys/class/thermal/thermal_zone0", None),
        entry("/sys/class/thermal/thermal_zone1", Some("battery\n")),
        entry("/sys/class/thermal/thermal_zone2", Some("  CPU-0-0-usr \n")),
        entry("/sys/class/thermal/thermal_zone3", Some("soc_thermal")),
    ];
    let supplies = vec![
        entry("/sys/class/power_supply/ac", Some("Mains\n")),
        entry("/sys/class/power_supply/bat", Some("Battery\n")),
    ];
    let found = HardwareScanner::scan(&zones, &supplies).unwrap();
    assert_eq!(found.thermal_temp_path, "/sys/class/thermal/thermal_zone2/temp");
    assert_eq!(found.battery_capacity_path, "/sys/class/power_supply/bat/capacity");
}

#[test]
fn scan_reports_the_missing_sensor() {
    let zone = vec![entry("/t", Some("Cluster1"))];
    let battery = vec![entry("/b", Some("Battery"))];
    let lower = vec![entry("/b", Some("battery"))];
    let other = vec![entry("/t", Some("skin"))];
    assert_eq!(
        HardwareScanner::scan(&other, &battery).unwrap_err(),
        "Hardware Error: No valid CPU thermal zone detected"
    );
    assert_eq!(
        HardwareScanner::scan(&zone, &lower).unwrap_err(),
        "Hardware Error: No primary battery supply detected"
    );
    assert!(HardwareScanner::scan(&zone, &battery).is_ok());
    assert!(HardwareScanner::is_cpu_name("my-soc"));
    assert!(!HardwareScanner::is_cpu_name("gpu"));
}
