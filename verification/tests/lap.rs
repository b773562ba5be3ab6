use line::lap::analyze_lap;
use line::segment::Segment;
use line::sensor::SteeringError;

fn errors(quarters: &[i8]) -> Vec<SteeringError> {
    quarters.iter().map(|q| SteeringError::from_quarters(*q).unwrap()).collect()
}

#[test]
fn empty_history_has_an_empty_model() {
    assert_eq!(analyze_lap(&errors(&[])), vec![]);
}

#[test]
fn single_sample_is_one_run_of_one() {
    assert_eq!(analyze_lap(&errors(&[-3])), vec![(Segment::Left, 1)]);
}

#[test]
fn identical_values_are_one_run() {
    for n in [1usize, 2, 19, 20, 21, 25, 206] {
        assert_eq!(analyze_lap(&errors(&vec![3i8; n])), vec![(Segment::Right, n)]);
        assert_eq!(analyze_lap(&errors(&vec![-2i8; n])), vec![(Segment::Left, n)]);
        assert_eq!(analyze_lap(&errors(&vec![0i8; n])), vec![(Segment::Straight, n)]);
    }
}

#[test]
fn quarter_error_held_for_a_lap_is_straight() {
    assert_eq!(analyze_lap(&errors(&vec![-1i8; 25])), vec![(Segment::Straight, 25)]);
    assert_eq!(analyze_lap(&errors(&vec![1i8; 25])), vec![(Segment::Straight, 25)]);
}

#[test]
fn alternating_segments_give_runs_of_one() {
    assert_eq!(
        analyze_lap(&errors(&[4, -4, 4, -4])),
        vec![
            (Segment::Right, 1),
            (Segment::Straight, 1),
            (Segment::Right, 1),
            (Segment::Straight, 1)
        ]
    );
}

#[test]
fn window_smooths_the_change_of_direction() {
    // thirty ticks to the right, then thirty to the left: the window of
    // twenty still reads right for six ticks, then straight for seven
    let mut quarters = vec![3i8; 30];
    quarters.extend(vec![-3i8; 30]);
    assert_eq!(
        analyze_lap(&errors(&quarters)),
        vec![(Segment::Right, 36), (Segment::Straight, 7), (Segment::Left, 17)]
    );
}

#[test]
fn runs_cover_the_lap_and_neighbours_differ() {
    let mut quarters: Vec<i8> = Vec::new();
    let mut seed: u32 = 12345;
    for _ in 0..500 {
        seed = seed.wrapping_mul(1_103_515_245).wrapping_add(12_345);
        let step = (seed >> 16) % 40;
        let q: i8 = if step < 9 { step as i8 - 4 } else { quarters.last().copied().unwrap_or(0) };
        quarters.push(q);
    }
    let model = analyze_lap(&errors(&quarters));
    let total: usize = model.iter().map(|(_, length)| *length).sum();
    assert_eq!(total, quarters.len());
    assert!(model.iter().all(|(_, length)| *length >= 1));
    assert!(model.windows(2).all(|pair| pair[0].0 != pair[1].0));
}

#[test]
fn same_history_gives_the_same_model() {
    let quarters: Vec<i8> = (0..120).map(|i| ((i / 7) % 9) as i8 - 4).collect();
    assert_eq!(analyze_lap(&errors(&quarters)), analyze_lap(&errors(&quarters)));
}
