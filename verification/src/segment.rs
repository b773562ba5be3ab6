//! The segment classifier: from the mean of the latest steering errors to the
//! shape of the track under the robot.

use vstd::prelude::*;
use crate::sensor::{quarters_of, SteeringError};

verus! {

/// Number of steering errors that a mean is taken over, where there are that
/// many.
pub const WINDOW: usize = 20;

/// A mean beyond this many quarters, to either side, is a turn.
pub const THRESHOLD: i64 = 1;

/// The shape of a stretch of track.
#[derive(Clone, Copy, Debug, PartialEq, Eq, Structural)]
pub enum Segment {
    Straight,
    Left,
    Right,
}

/// The mean of `count` steering errors whose quarters add up to `total`: the
/// mean is `total / count` quarters.  Kept as the two numbers, so that
/// nothing is rounded.
#[derive(Clone, Copy, Debug, PartialEq, Eq, Structural)]
pub struct Mean {
    pub total: i32,
    pub count: u32,
}

/// The segment for a mean of `total / count` quarters: a right turn where the
/// mean is strictly above the threshold, a left turn where it is strictly
/// below the threshold's negative, else straight.  Both comparisons are
/// multiplied through by `count`.
pub open spec fn segment_for(total: int, count: int) -> Segment {
    if total > THRESHOLD * count {
        Segment::Right
    } else if total < -THRESHOLD * count {
        Segment::Left
    } else {
        Segment::Straight
    }
}

/// Index of the first steering error in the window that ends before `end`.
pub open spec fn window_start(end: int) -> int {
    if end > WINDOW {
        end - WINDOW
    } else {
        0
    }
}

/// Sum of the steering errors `history[from..to]`, in quarters.
pub open spec fn total_between(history: Seq<int>, from: int, to: int) -> int
    decreases to - from,
{
    if to <= from {
        0
    } else {
        total_between(history, from, to - 1) + history[to - 1]
    }
}

/// Sum of the steering errors in the window that ends before `end`.
pub open spec fn window_total(history: Seq<int>, end: int) -> int {
    total_between(history, window_start(end), end)
}

/// Number of steering errors in the window that ends before `end`.
pub open spec fn window_count(end: int) -> int {
    end - window_start(end)
}

/// The segment that the robot is on at tick `i`: the one for the mean over
/// the window that ends with the error of tick `i`.
pub open spec fn segment_at(history: Seq<int>, i: int) -> Segment {
    segment_for(window_total(history, i + 1), window_count(i + 1))
}

/// The segment classifier.
pub fn get_segment(mean: Mean) -> (segment: Segment)
    ensures
        segment == segment_for(mean.total as int, mean.count as int),
{
    let total: i64 = mean.total as i64;
    let bound: i64 = THRESHOLD * (mean.count as i64);
    if total > bound {
        Segment::Right
    } else if total < -bound {
        Segment::Left
    } else {
        Segment::Straight
    }
}

/// The mean of the steering errors in the window that ends before `end`: the
/// last `WINDOW` of `history[..end]`, or all of them where there are fewer.
/// There is no mean of no errors.
pub fn avg(history: &Vec<SteeringError>, end: usize) -> (mean: Option<Mean>)
    requires
        end <= history.len(),
    ensures
        mean is None <==> end == 0,
        mean is Some ==> mean->Some_0.total == window_total(quarters_of(history@), end as int),
        mean is Some ==> mean->Some_0.count == window_count(end as int),
{
    if end == 0 {
        return None;
    }
    let from: usize = if end > WINDOW {
        end - WINDOW
    } else {
        0
    };
    let mut total: i32 = 0;
    let mut i: usize = from;
    while i < end
        invariant
            from <= i <= end <= history.len(),
            end - from <= WINDOW,
            total == total_between(quarters_of(history@), from as int, i as int),
            -128 * (i - from) <= total <= 127 * (i - from),
        decreases end - i,
    {
        let q: i8 = history[i].quarters();
        total = total + q as i32;
        i = i + 1;
    }
    Some(Mean { total, count: (end - from) as u32 })
}

/// The segment at tick `i` of a phase whose steering errors are `history`.
pub fn classify(history: &Vec<SteeringError>, i: usize) -> (segment: Segment)
    requires
        i < history.len(),
    ensures
        segment == segment_at(quarters_of(history@), i as int),
{
    match avg(history, i + 1) {
        Some(mean) => get_segment(mean),
        None => Segment::Straight,
    }
}

/// A mean exactly at the threshold, on either side, is still straight: the
/// comparisons are strict.
pub proof fn lemma_threshold_is_straight(count: int)
    requires
        count >= 0,
    ensures
        segment_for(THRESHOLD * count, count) == Segment::Straight,
        segment_for(-THRESHOLD * count, count) == Segment::Straight,
{
    assert(-THRESHOLD * count <= THRESHOLD * count) by (nonlinear_arith)
        requires
            count >= 0,
    ;
}

/// The sum of equal steering errors is their number times the error.
pub proof fn lemma_total_of_equal(history: Seq<int>, from: int, to: int, q: int)
    requires
        0 <= from <= to <= history.len(),
        forall|k: int| from <= k < to ==> #[trigger] history[k] == q,
    ensures
        total_between(history, from, to) == (to - from) * q,
    decreases to - from,
{
    if from < to {
        lemma_total_of_equal(history, from, to - 1, q);
        assert(history[to - 1] == q);
        assert((to - 1 - from) * q + q == (to - from) * q) by (nonlinear_arith);
    } else {
        assert((to - from) * q == 0) by (nonlinear_arith)
            requires
                to - from == 0,
        ;
    }
}

/// The mean of equal steering errors classifies as the error itself does.
pub proof fn lemma_segment_of_equal(q: int, count: int)
    requires
        count > 0,
    ensures
        segment_for(count * q, count) == segment_for(q, 1),
{
    assert(count * q > THRESHOLD * count <==> q > THRESHOLD) by (nonlinear_arith)
        requires
            count > 0,
    ;
    assert(count * q < -THRESHOLD * count <==> q < -THRESHOLD) by (nonlinear_arith)
        requires
            count > 0,
    ;
}

} // verus!
