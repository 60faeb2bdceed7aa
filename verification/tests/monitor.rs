use clock_monitor::codec::deserialize_clock;
use clock_monitor::codec::ClockSnapshot;
use clock_monitor::codec::DecodeError;
use clock_monitor::filter::run_filter;
use clock_monitor::filter::MonitorState;
use clock_monitor::session::run_session;
use clock_monitor::session::ClockMonitor;
use clock_monitor::session::NotifyOutcome;
use clock_monitor::session::Phase;

fn payload(
    slot: u64,
    epoch_start_timestamp: i64,
    epoch: u64,
    leader_schedule_epoch: u64,
    unix_timestamp: i64,
) -> Vec<u8> {
    let mut bytes = Vec::new();
    bytes.extend_from_slice(&slot.to_le_bytes());
    bytes.extend_from_slice(&epoch_start_timestamp.to_le_bytes());
    bytes.extend_from_slice(&epoch.to_le_bytes());
    bytes.extend_from_slice(&leader_schedule_epoch.to_le_bytes());
    bytes.extend_from_slice(&unix_timestamp.to_le_bytes());
    bytes
}

#[test]
fn decode_known_layout() {
    let data = payload(1, 1000, 2, 3, 1620000000);
    assert_eq!(data.len(), 40);
    let snapshot = deserialize_clock(&data).unwrap();
    assert_eq!(
        snapshot,
        ClockSnapshot {
            slot: 1,
            epoch_start_timestamp: 1000,
            epoch: 2,
            leader_schedule_epoch: 3,
            unix_timestamp: 1620000000,
        }
    );
}

#[test]
fn decode_negative_timestamps() {
    let data = payload(7, -1000, 11, 13, -5);
    let snapshot = deserialize_clock(&data).unwrap();
    assert_eq!(snapshot.epoch_start_timestamp, -1000);
    assert_eq!(snapshot.unix_timestamp, -5);
}

#[test]
fn decode_extreme_values() {
    let data = payload(u64::MAX, i64::MIN, u64::MAX, 0, i64::MAX);
    let snapshot = deserialize_clock(&data).unwrap();
    assert_eq!(snapshot.slot, u64::MAX);
    assert_eq!(snapshot.epoch_start_timestamp, i64::MIN);
    assert_eq!(snapshot.epoch, u64::MAX);
    assert_eq!(snapshot.leader_schedule_epoch, 0);
    assert_eq!(snapshot.unix_timestamp, i64::MAX);
}

#[test]
fn decode_short_buffer_is_an_error() {
    let mut data = payload(1, 2, 3, 4, 5);
    data.truncate(39);
    assert_eq!(deserialize_clock(&data), Err(DecodeError::TooShort));
    let empty: Vec<u8> = Vec::new();
    assert_eq!(deserialize_clock(&empty), Err(DecodeError::TooShort));
}

#[test]
fn decode_ignores_trailing_bytes() {
    let mut data = payload(1, 1000, 2, 3, 1620000000);
    data.extend_from_slice(&[0xAB; 8]);
    let snapshot = deserialize_clock(&data).unwrap();
    assert_eq!(snapshot.slot, 1);
    assert_eq!(snapshot.unix_timestamp, 1620000000);
}

#[test]
fn filter_rejects_out_of_order() {
    let emitted = run_filter(&vec![100, 90, 95, 110]);
    assert_eq!(emitted, vec![100, 110]);
}

#[test]
fn filter_emits_duplicate_once() {
    let emitted = run_filter(&vec![7, 7]);
    assert_eq!(emitted, vec![7]);
}

#[test]
fn filter_output_strictly_increasing() {
    let emitted = run_filter(&vec![5, 1, 5, 9, 9, 2, 12, 12, 11, 30]);
    assert_eq!(emitted, vec![5, 9, 12, 30]);
    for window in emitted.windows(2) {
        assert!(window[0] < window[1]);
    }
}

#[test]
fn filter_starts_at_zero() {
    let emitted = run_filter(&vec![0, -3, -1]);
    assert_eq!(emitted, Vec::<i64>::new());
}

#[test]
fn filter_empty_input() {
    let emitted = run_filter(&Vec::new());
    assert_eq!(emitted, Vec::<i64>::new());
}

#[test]
fn step_advances_only_on_strictly_greater() {
    let mut state = MonitorState::new();
    assert_eq!(state.latest_emitted, 0);
    assert!(state.step(5));
    assert_eq!(state.latest_emitted, 5);
    assert!(!state.step(5));
    assert!(!state.step(4));
    assert_eq!(state.latest_emitted, 5);
    assert!(state.step(6));
    assert_eq!(state.latest_emitted, 6);
}

#[test]
fn session_lifecycle() {
    let mut monitor = ClockMonitor::new();
    assert_eq!(monitor.phase, Phase::Idle);

    monitor.on_subscribed();
    assert_eq!(monitor.phase, Phase::Subscribed);

    let outcome = monitor.on_notification(&payload(10, 0, 1, 1, 100));
    assert_eq!(outcome, NotifyOutcome::Emitted(100));
    assert_eq!(monitor.phase, Phase::Running);

    let outcome = monitor.on_notification(&payload(11, 0, 1, 1, 100));
    assert_eq!(outcome, NotifyOutcome::Suppressed);

    let outcome = monitor.on_notification(&vec![1, 2, 3]);
    assert_eq!(outcome, NotifyOutcome::Malformed(DecodeError::TooShort));
    assert_eq!(monitor.phase, Phase::Running);

    let outcome = monitor.on_notification(&payload(12, 0, 1, 1, 101));
    assert_eq!(outcome, NotifyOutcome::Emitted(101));

    monitor.on_stream_end();
    assert_eq!(monitor.phase, Phase::Terminated);
}

#[test]
fn terminated_session_never_emits_again() {
    let mut monitor = ClockMonitor::new();
    monitor.on_subscribed();
    assert_eq!(monitor.on_notification(&payload(1, 0, 1, 1, 50)), NotifyOutcome::Emitted(50));
    monitor.on_stream_end();
    assert_eq!(monitor.on_notification(&payload(2, 0, 1, 1, 60)), NotifyOutcome::Ignored);
    assert_eq!(monitor.phase, Phase::Terminated);
    assert_eq!(monitor.state.latest_emitted, 50);
}

#[test]
fn idle_session_ignores_notifications() {
    let mut monitor = ClockMonitor::new();
    let outcome = monitor.on_notification(&payload(1, 0, 1, 1, 50));
    assert_eq!(outcome, NotifyOutcome::Ignored);
    assert_eq!(monitor.phase, Phase::Idle);
    assert_eq!(monitor.state.latest_emitted, 0);
}

#[test]
fn session_run_skips_malformed_and_filters() {
    let payloads = vec![
        payload(1, 0, 1, 1, 100),
        vec![1, 2, 3],
        payload(2, 0, 1, 1, 90),
        payload(3, 0, 1, 1, 95),
        payload(4, 0, 1, 1, 110),
    ];
    assert_eq!(run_session(&payloads), vec![100, 110]);
}

#[test]
fn session_run_empty_input() {
    let payloads: Vec<Vec<u8>> = Vec::new();
    assert_eq!(run_session(&payloads), Vec::<i64>::new());
}

#[test]
fn subscribe_twice_is_harmless() {
    let mut monitor = ClockMonitor::new();
    monitor.on_subscribed();
    monitor.on_subscribed();
    assert_eq!(monitor.phase, Phase::Subscribed);
    monitor.on_stream_end();
    monitor.on_subscribed();
    assert_eq!(monitor.phase, Phase::Terminated);
}
