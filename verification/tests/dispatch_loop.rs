//! Tests of the dispatch-loop decisions.

use packet_trains::dispatch::{
    any_on, clamp_size, earliest_due, should_sleep, IDLE_WAIT_THRESHOLD_MICROS,
    MAX_PAYLOAD_BYTES,
};
use packet_trains::packet_train::PacketTrain;

#[test]
fn packet_size_is_clamped_to_max_payload() {
    assert_eq!(clamp_size(2_000, MAX_PAYLOAD_BYTES), 1420);
    assert_eq!(clamp_size(100, MAX_PAYLOAD_BYTES), 100);
    assert_eq!(clamp_size(1420, MAX_PAYLOAD_BYTES), 1420);
    assert_eq!(clamp_size(1421, MAX_PAYLOAD_BYTES), 1420);
    // a sample that a distribution drove to zero stays a zero-length packet
    assert_eq!(clamp_size(0, MAX_PAYLOAD_BYTES), 0);
}

#[test]
fn earliest_due_is_the_minimum_window_end() {
    let mut trains = vec![
        PacketTrain::new(1, 1, 10, 500),
        PacketTrain::new(1, 1, 10, 200),
        PacketTrain::new(1, 1, 10, 300),
    ];
    assert_eq!(earliest_due(&trains), 200);
    trains[1].flip_status(200, 1_000, 2_000, 5);
    assert_eq!(earliest_due(&trains), 300);
}

#[test]
fn any_on_sees_a_single_active_train() {
    let mut trains = vec![PacketTrain::new(1, 1, 10, 0), PacketTrain::new(1, 1, 10, 0)];
    assert!(!any_on(&trains));
    trains[1].flip_status(0, 1_000, 2_000, 5);
    assert!(any_on(&trains));
    trains[1].flip_status(1_000, 1_000, 2_000, 5);
    assert!(!any_on(&trains));
}

#[test]
fn loop_sleeps_only_when_idle_and_nothing_is_imminent() {
    // idle, next transition well past the threshold: sleep
    assert!(should_sleep(false, 10_000, 100));
    // a train is on: never sleep, however far the next transition is
    assert!(!should_sleep(true, 10_000, 100));
    // idle but the next transition is imminent: busy-poll instead
    assert!(!should_sleep(false, 100 + IDLE_WAIT_THRESHOLD_MICROS, 100));
    // one microsecond past the threshold: sleep
    assert!(should_sleep(false, 101 + IDLE_WAIT_THRESHOLD_MICROS, 100));
    // the earliest transition already passed: no sleep
    assert!(!should_sleep(false, 50, 100));
}
