//! Tests of the bandwidth calibration step.

use packet_trains::calibrate::{calibrate, CalibrationError};
use packet_trains::packet_train::PacketTrain;

#[test]
fn calibration_scales_sum_to_target_and_keeps_shares() {
    // duty cycle 1/2 each: mean bandwidths 5 and 15, total 20
    let mut trains = vec![PacketTrain::new(1, 1, 10, 0), PacketTrain::new(1, 1, 30, 0)];
    let r = calibrate(&mut trains, 40);
    assert!(r.is_ok());
    // factor 2: distribution means double, everything else is untouched
    assert_eq!(trains[0].bandwith_mean, 20);
    assert_eq!(trains[1].bandwith_mean, 60);
    assert_eq!(trains[0].on_mean_micros, 1);
    assert_eq!(trains[0].off_mean_micros, 1);
    // the new mean bandwidths sum to the target
    let new_sum: u64 = trains.iter().map(|t| t.mean_bandwith()).sum();
    assert_eq!(new_sum, 40);
    // relative shares of the mix are unchanged: 1:3
    assert_eq!(trains[0].mean_bandwith() * 3, trains[1].mean_bandwith());
}

#[test]
fn calibration_with_target_equal_to_mean_changes_nothing() {
    // a single train: calibrating to its own mean bandwidth is a factor of 1
    let mut trains = vec![PacketTrain::new(150_000, 4_590_843, 10_000_000, 0)];
    let own_mean = trains[0].mean_bandwith();
    assert!(own_mean > 0);
    let r = calibrate(&mut trains, own_mean);
    assert!(r.is_ok());
    assert_eq!(trains[0].bandwith_mean, 10_000_000);
    assert_eq!(trains[0].mean_bandwith(), own_mean);
}

#[test]
fn calibration_rejects_zero_mean_mix() {
    let mut trains = vec![PacketTrain::new(0, 1_000, 10_000_000, 0), PacketTrain::new(
        1,
        1,
        0,
        0,
    )];
    let r = calibrate(&mut trains, 1_000_000);
    assert_eq!(r, Err(CalibrationError::ZeroMeanSum));
    // the mix is left untouched
    assert_eq!(trains[0].bandwith_mean, 10_000_000);
    assert_eq!(trains[1].bandwith_mean, 0);
}

#[test]
fn calibration_rejects_unrepresentable_rescaling() {
    // duty cycle 1/10 of the largest mean: rescaling to the largest target
    // would need a mean about ten times the representable maximum
    let mut trains = vec![PacketTrain::new(1, 9, u64::MAX, 0)];
    let r = calibrate(&mut trains, u64::MAX);
    assert_eq!(r, Err(CalibrationError::BandwidthOverflow));
    assert_eq!(trains[0].bandwith_mean, u64::MAX);
}

#[test]
fn calibration_of_realistic_mix_lands_near_target() {
    // on/off mean durations in microseconds as the reference mix uses them,
    // with Weibull off-time means 5000 ms * gamma(1.2), 60 s * gamma(3),
    // 100 ms * gamma(3), 100 ms * gamma(3), 10 ms * gamma(3)
    let mut trains = vec![
        PacketTrain::new(150_000, 4_590_843, 10_000_000, 0),
        PacketTrain::new(2_000_000, 120_000_000, 10_000_000, 0),
        PacketTrain::new(10_000, 200_000, 10_000_000, 0),
        PacketTrain::new(10_000, 200_000, 10_000_000, 0),
        PacketTrain::new(1_000, 20_000, 1_000_000, 0),
    ];
    let target: u64 = 2_500_000; // 20 Mbit/s in bytes per second
    let r = calibrate(&mut trains, target);
    assert!(r.is_ok());
    let new_sum: u64 = trains.iter().map(|t| t.mean_bandwith()).sum();
    // the rescaled sum lands on the target within a few integer rounding
    // units per train on either side
    assert!(new_sum + 2 * trains.len() as u64 >= target);
    let relative_error = (new_sum as f64 - target as f64).abs() / target as f64;
    assert!(relative_error < 1e-4);
}
