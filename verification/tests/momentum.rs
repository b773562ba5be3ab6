use line::momentum::{Momentum, FULL, RAMP};
use line::sensor::SteeringError;

fn quarters(q: i8) -> SteeringError {
    SteeringError::from_quarters(q).unwrap()
}

#[test]
fn first_sample_of_a_phase_has_no_momentum() {
    let start = Momentum::zero();
    assert_eq!(start.integrate(None, quarters(3)).millionths(), 0);
    let carried = Momentum::from_millionths(500_000).unwrap();
    assert_eq!(carried.integrate(None, quarters(3)).millionths(), 0);
}

#[test]
fn same_side_ramps_by_a_tenth_of_what_is_left() {
    let expected: [u32; 8] =
        [100_000, 190_000, 271_000, 343_900, 409_510, 468_559, 521_703, 569_532];
    let mut momentum = Momentum::zero();
    for want in expected {
        momentum = momentum.integrate(Some(quarters(-1)), quarters(-3));
        assert_eq!(momentum.millionths(), want);
    }
}

#[test]
fn ramp_constants() {
    assert_eq!(FULL, 1_000_000);
    assert_eq!(RAMP, 10);
}

#[test]
fn momentum_does_not_fall_on_a_run_and_never_passes_full() {
    let mut momentum = Momentum::zero();
    let mut last = 0u32;
    for _ in 0..500 {
        momentum = momentum.integrate(Some(quarters(2)), quarters(1));
        assert!(momentum.millionths() >= last);
        assert!(momentum.millionths() <= FULL);
        last = momentum.millionths();
    }
    assert_eq!(last, 999_991);
}

#[test]
fn sign_flip_resets_to_zero() {
    let high = Momentum::from_millionths(999_991).unwrap();
    assert_eq!(high.integrate(Some(quarters(3)), quarters(-1)).millionths(), 0);
    assert_eq!(high.integrate(Some(quarters(-4)), quarters(4)).millionths(), 0);
}

#[test]
fn centred_error_resets_to_zero() {
    let high = Momentum::from_millionths(700_000).unwrap();
    assert_eq!(high.integrate(Some(quarters(0)), quarters(2)).millionths(), 0);
    assert_eq!(high.integrate(Some(quarters(2)), quarters(0)).millionths(), 0);
    assert_eq!(high.integrate(Some(quarters(0)), quarters(0)).millionths(), 0);
}

#[test]
fn full_momentum_stays_full_on_a_run() {
    let full = Momentum::from_millionths(FULL).unwrap();
    assert_eq!(full.integrate(Some(quarters(1)), quarters(1)).millionths(), FULL);
}

#[test]
fn momentum_takes_only_millionths_within_one() {
    assert!(Momentum::from_millionths(FULL + 1).is_none());
    assert!(Momentum::from_millionths(u32::MAX).is_none());
    assert_eq!(Momentum::from_millionths(FULL).unwrap().millionths(), FULL);
    assert_eq!(Momentum::from_millionths(0).unwrap(), Momentum::zero());
}
