use catnip_tcp::rto::{RtoCalculator, RTO_INITIAL_MS, RTO_MAX_MS, RTO_MIN_MS};

#[test]
fn starts_at_the_initial_timeout() {
    let rto = RtoCalculator::new();
    assert_eq!(rto.current_timeout(), RTO_INITIAL_MS);
}

#[test]
fn first_sample_seeds_the_estimator() {
    let mut rto = RtoCalculator::new();
    rto.record_sample(400);
    // srtt = 400, rttvar = 200, raw = 400 + 4 * 200 = 1200.
    assert_eq!(rto.srtt, 400);
    assert_eq!(rto.rttvar, 200);
    assert_eq!(rto.current_timeout(), 1200);
}

#[test]
fn later_samples_follow_the_smoothing_rule() {
    let mut rto = RtoCalculator::new();
    rto.record_sample(400);
    rto.record_sample(200);
    // rttvar = (3 * 200 + |400 - 200|) / 4 = 200; srtt = (7 * 400 + 200) / 8 = 375.
    assert_eq!(rto.rttvar, 200);
    assert_eq!(rto.srtt, 375);
    assert_eq!(rto.current_timeout(), 375 + 4 * 200);
}

#[test]
fn timeout_is_floored() {
    let mut rto = RtoCalculator::new();
    rto.record_sample(10);
    // raw = 10 + 4 * 5 = 30, below the floor.
    assert_eq!(rto.current_timeout(), RTO_MIN_MS);
}

#[test]
fn timeout_is_capped() {
    let mut rto = RtoCalculator::new();
    rto.record_sample(100_000);
    // raw = 100_000 + 4 * 50_000, far above the cap.
    assert_eq!(rto.current_timeout(), RTO_MAX_MS);
}
