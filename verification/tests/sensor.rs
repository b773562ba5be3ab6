use line::sensor::{weight_of, SteeringError, TrackReading, DIVISOR, SENSORS};

fn quarters(q: i8) -> SteeringError {
    SteeringError::from_quarters(q).unwrap()
}

#[test]
fn gap_holds_every_previous_error() {
    let gap = TrackReading::new([true, true, true, true]);
    assert!(gap.gap());
    for q in -4i8..=4 {
        assert_eq!(gap.normalize(quarters(q)).quarters(), q);
    }
}

#[test]
fn gap_hold_is_idempotent() {
    let gap = TrackReading::new([true, true, true, true]);
    let once = gap.normalize(quarters(3));
    let twice = gap.normalize(once);
    assert_eq!(once, twice);
    assert_eq!(twice.quarters(), 3);
}

#[test]
fn single_element_gives_its_weight() {
    let expected: [i8; 4] = [-3, -1, 1, 3];
    for i in 0..4 {
        let mut raw = [true; 4];
        raw[i] = false;
        let reading = TrackReading::new(raw);
        for previous in [-4i8, 0, 2] {
            assert_eq!(reading.normalize(quarters(previous)).quarters(), expected[i]);
        }
    }
}

#[test]
fn weights_are_symmetric_and_grow_from_the_centre() {
    assert_eq!(weight_of(0), -3);
    assert_eq!(weight_of(1), -1);
    assert_eq!(weight_of(2), 1);
    assert_eq!(weight_of(3), 3);
    assert_eq!(weight_of(0) + weight_of(1), -DIVISOR);
    assert_eq!(weight_of(2) + weight_of(3), DIVISOR);
    assert_eq!(SENSORS, 4);
}

#[test]
fn true_means_no_line() {
    let reading = TrackReading::new([true, true, true, false]);
    assert_eq!(reading.count_active(), 1);
    assert_eq!(reading.normalize(SteeringError::centered()).quarters(), 3);
}

#[test]
fn two_elements_add_their_weights() {
    let centre = SteeringError::centered();
    let far_left = TrackReading::new([false, false, true, true]);
    assert_eq!(far_left.normalize(centre).quarters(), -4);
    let far_right = TrackReading::new([true, true, false, false]);
    assert_eq!(far_right.normalize(centre).quarters(), 4);
    let middle = TrackReading::new([true, false, false, true]);
    assert_eq!(middle.normalize(quarters(4)).quarters(), 0);
    let outer = TrackReading::new([false, true, true, false]);
    assert_eq!(outer.normalize(quarters(-4)).quarters(), 0);
    let lopsided = TrackReading::new([false, true, false, true]);
    assert_eq!(lopsided.normalize(centre).quarters(), -2);
}

#[test]
fn three_elements_add_their_weights() {
    let centre = SteeringError::centered();
    assert_eq!(TrackReading::new([false, false, false, true]).normalize(centre).quarters(), -3);
    assert_eq!(TrackReading::new([true, false, false, false]).normalize(centre).quarters(), 3);
    assert_eq!(TrackReading::new([false, false, true, false]).normalize(centre).quarters(), -1);
    assert_eq!(TrackReading::new([false, true, false, false]).normalize(centre).quarters(), 1);
}

#[test]
fn marker_is_centred_and_is_no_gap() {
    let marker = TrackReading::new([false, false, false, false]);
    assert!(marker.marker());
    assert!(!marker.gap());
    assert_eq!(marker.count_active(), 4);
    assert_eq!(marker.normalize(quarters(-3)).quarters(), 0);
    let gap = TrackReading::new([true, true, true, true]);
    assert!(gap.gap());
    assert!(!gap.marker());
    assert_eq!(gap.count_active(), 0);
}

#[test]
fn every_reading_gives_an_error_within_range() {
    for bits in 0u8..16 {
        let raw = [bits & 1 != 0, bits & 2 != 0, bits & 4 != 0, bits & 8 != 0];
        let reading = TrackReading::new(raw);
        let mut expected: i8 = 0;
        let mut active = 0u8;
        for i in 0..4 {
            if !raw[i] {
                expected += [-3i8, -1, 1, 3][i];
                active += 1;
            }
        }
        assert_eq!(reading.count_active(), active);
        let error = reading.normalize(quarters(2)).quarters();
        if active == 0 {
            assert_eq!(error, 2);
        } else {
            assert_eq!(error, expected);
        }
        assert!(-4 <= error && error <= 4);
    }
}

#[test]
fn steering_error_takes_only_quarters_within_one() {
    assert!(SteeringError::from_quarters(5).is_none());
    assert!(SteeringError::from_quarters(-5).is_none());
    assert!(SteeringError::from_quarters(i8::MIN).is_none());
    assert!(SteeringError::from_quarters(i8::MAX).is_none());
    assert_eq!(SteeringError::from_quarters(4).unwrap().quarters(), 4);
    assert_eq!(SteeringError::from_quarters(-4).unwrap().quarters(), -4);
    assert_eq!(SteeringError::from_quarters(0).unwrap(), SteeringError::centered());
}
