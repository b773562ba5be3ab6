use line::segment::{avg, classify, get_segment, Mean, Segment, THRESHOLD, WINDOW};
use line::sensor::SteeringError;

fn errors(quarters: &[i8]) -> Vec<SteeringError> {
    quarters.iter().map(|q| SteeringError::from_quarters(*q).unwrap()).collect()
}

#[test]
fn window_and_threshold() {
    assert_eq!(WINDOW, 20);
    // one quarter
    assert_eq!(THRESHOLD, 1);
}

#[test]
fn mean_above_a_quarter_is_a_right_turn() {
    assert_eq!(get_segment(Mean { total: 3, count: 1 }), Segment::Right);
    assert_eq!(get_segment(Mean { total: 21, count: 20 }), Segment::Right);
    assert_eq!(get_segment(Mean { total: 80, count: 20 }), Segment::Right);
}

#[test]
fn mean_below_minus_a_quarter_is_a_left_turn() {
    assert_eq!(get_segment(Mean { total: -2, count: 1 }), Segment::Left);
    assert_eq!(get_segment(Mean { total: -21, count: 20 }), Segment::Left);
    assert_eq!(get_segment(Mean { total: -80, count: 20 }), Segment::Left);
}

#[test]
fn mean_at_the_threshold_is_straight() {
    assert_eq!(get_segment(Mean { total: 1, count: 1 }), Segment::Straight);
    assert_eq!(get_segment(Mean { total: -1, count: 1 }), Segment::Straight);
    assert_eq!(get_segment(Mean { total: 20, count: 20 }), Segment::Straight);
    assert_eq!(get_segment(Mean { total: -20, count: 20 }), Segment::Straight);
    assert_eq!(get_segment(Mean { total: 0, count: 7 }), Segment::Straight);
}

#[test]
fn classifier_takes_the_largest_means() {
    assert_eq!(get_segment(Mean { total: i32::MAX, count: u32::MAX }), Segment::Straight);
    assert_eq!(get_segment(Mean { total: i32::MIN, count: 1 }), Segment::Left);
    assert_eq!(get_segment(Mean { total: i32::MAX, count: 1 }), Segment::Right);
}

#[test]
fn no_mean_of_no_errors() {
    assert_eq!(avg(&errors(&[]), 0), None);
    assert_eq!(avg(&errors(&[3, 3, 3]), 0), None);
}

#[test]
fn mean_near_the_start_is_over_what_there_is() {
    let history = errors(&[4, -1, 3, 2]);
    assert_eq!(avg(&history, 1), Some(Mean { total: 4, count: 1 }));
    assert_eq!(avg(&history, 2), Some(Mean { total: 3, count: 2 }));
    assert_eq!(avg(&history, 3), Some(Mean { total: 6, count: 3 }));
    assert_eq!(avg(&history, 4), Some(Mean { total: 8, count: 4 }));
}

#[test]
fn mean_is_over_the_last_twenty() {
    let mut quarters: Vec<i8> = vec![-4; 10];
    quarters.extend(vec![3i8; 20]);
    quarters.extend(vec![1i8; 5]);
    let history = errors(&quarters);
    assert_eq!(avg(&history, 20), Some(Mean { total: -40 + 30, count: 20 }));
    assert_eq!(avg(&history, 21), Some(Mean { total: -36 + 33, count: 20 }));
    assert_eq!(avg(&history, 30), Some(Mean { total: 60, count: 20 }));
    assert_eq!(avg(&history, 35), Some(Mean { total: 45 + 5, count: 20 }));
}

#[test]
fn classify_uses_the_window_that_ends_with_the_tick() {
    let history = errors(&[4, -4, 4, -4]);
    assert_eq!(classify(&history, 0), Segment::Right);
    assert_eq!(classify(&history, 1), Segment::Straight);
    assert_eq!(classify(&history, 2), Segment::Right);
    assert_eq!(classify(&history, 3), Segment::Straight);
    let history = errors(&[-2, -2, 4]);
    assert_eq!(classify(&history, 0), Segment::Left);
    assert_eq!(classify(&history, 1), Segment::Left);
    assert_eq!(classify(&history, 2), Segment::Straight);
}
