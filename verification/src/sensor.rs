//! The sensor normaliser: from a raw reading of the line sensor to a signed
//! steering error.

use vstd::prelude::*;

verus! {

/// Number of elements of the line sensor.
pub const SENSORS: usize = 4;

/// Sum of the weights on one side of the sensor.  A steering error is a
/// weighted sum divided by this, so it is counted in units of `1 / DIVISOR`.
pub const DIVISOR: i8 = 4;

/// Weight of the sensor element at position `i`, counted from the left.
pub open spec fn weight(i: int) -> int {
    if i == 0 {
        -3
    } else if i == 1 {
        -1
    } else if i == 2 {
        1
    } else {
        3
    }
}

/// The weight of element `i` as a machine integer.
pub fn weight_of(i: usize) -> (w: i8)
    requires
        i < SENSORS,
    ensures
        w == weight(i as int),
{
    if i == 0 {
        -3
    } else if i == 1 {
        -1
    } else if i == 2 {
        1
    } else {
        3
    }
}

/// A steering error: the signed distance of the line from the centre of the
/// sensor, between -1 (far left) and 1 (far right), held as a whole number of
/// quarters.
#[derive(Clone, Copy, Debug, PartialEq, Eq, Structural)]
pub struct SteeringError {
    quarters: i8,
}

impl View for SteeringError {
    type V = int;

    /// The error in quarters: `self@ / 4` is the steering error.
    closed spec fn view(&self) -> int {
        self.quarters as int
    }
}

impl SteeringError {
    #[verifier::type_invariant]
    closed spec fn in_range(self) -> bool {
        -(DIVISOR as int) <= self.quarters <= DIVISOR as int
    }

    /// Whether `q` quarters is a steering error, that is, lies in [-1, 1].
    pub open spec fn admits(q: int) -> bool {
        -(DIVISOR as int) <= q <= DIVISOR as int
    }

    /// The error of a robot that sits on the line.
    pub fn centered() -> (error: SteeringError)
        ensures
            error@ == 0,
    {
        SteeringError { quarters: 0 }
    }

    /// The error of `q` quarters, if that lies in [-1, 1].
    pub fn from_quarters(q: i8) -> (error: Option<SteeringError>)
        ensures
            error is Some <==> Self::admits(q as int),
            error is Some ==> error->Some_0@ == q,
    {
        if -DIVISOR <= q && q <= DIVISOR {
            Some(SteeringError { quarters: q })
        } else {
            None
        }
    }

    /// The error in quarters.
    pub fn quarters(&self) -> (q: i8)
        ensures
            q == self@,
            Self::admits(q as int),
    {
        proof {
            use_type_invariant(self);
        }
        self.quarters
    }
}

/// The steering errors of a phase as plain numbers of quarters, in order.
pub open spec fn quarters_of(errors: Seq<SteeringError>) -> Seq<int> {
    Seq::new(errors.len(), |i: int| errors[i]@)
}

/// With one more steering error, the numbers are the same and one more.
pub proof fn lemma_quarters_of_push(errors: Seq<SteeringError>, error: SteeringError)
    ensures
        quarters_of(errors.push(error)) == quarters_of(errors).push(error@),
{
    assert(quarters_of(errors.push(error)) =~= quarters_of(errors).push(error@));
}

/// One reading of the line sensor, left to right.  The encoding is inverted:
/// an element that is `true` saw no line.
#[derive(Clone, Copy, Debug, PartialEq, Eq)]
pub struct TrackReading {
    pub raw: [bool; 4],
}

impl TrackReading {
    /// Whether element `i` sees the line.
    pub open spec fn active(self, i: int) -> bool {
        !self.raw[i]
    }

    /// How many of the first `k` elements see the line.
    pub open spec fn active_among(self, k: int) -> int
        decreases k,
    {
        if k <= 0 {
            0
        } else {
            self.active_among(k - 1) + if self.active(k - 1) {
                1int
            } else {
                0int
            }
        }
    }

    /// Sum of the weights of those of the first `k` elements that see the line.
    pub open spec fn weight_among(self, k: int) -> int
        decreases k,
    {
        if k <= 0 {
            0
        } else {
            self.weight_among(k - 1) + if self.active(k - 1) {
                weight(k - 1)
            } else {
                0int
            }
        }
    }

    /// How many elements see the line.
    pub open spec fn active_count(self) -> int {
        self.active_among(SENSORS as int)
    }

    /// Sum of the weights of the elements that see the line.
    pub open spec fn weighted_sum(self) -> int {
        self.weight_among(SENSORS as int)
    }

    /// No element sees the line: the robot is over a gap, and where the line
    /// lies is unknown.
    pub open spec fn is_gap(self) -> bool {
        self.active_count() == 0
    }

    /// Every element sees the line: the robot is over a finish marker.
    pub open spec fn is_marker(self) -> bool {
        self.active_count() == SENSORS
    }

    /// The steering error, in quarters, that follows `previous` when this
    /// reading comes in: over a gap the previous error is held, otherwise it
    /// is the weighted sum of the elements that see the line.
    pub open spec fn normalized(self, previous: int) -> int {
        if self.is_gap() {
            previous
        } else {
            self.weighted_sum()
        }
    }

    pub fn new(raw: [bool; 4]) -> (reading: TrackReading)
        ensures
            reading.raw == raw,
    {
        TrackReading { raw }
    }

    /// Counts the elements that see the line.
    pub fn count_active(&self) -> (n: u8)
        ensures
            n == self.active_count(),
            n <= SENSORS,
    {
        let mut n: u8 = 0;
        let mut i: usize = 0;
        while i < SENSORS
            invariant
                i <= SENSORS,
                n <= i,
                n == self.active_among(i as int),
            decreases SENSORS - i,
        {
            if !self.raw[i] {
                n = n + 1;
            }
            i = i + 1;
        }
        n
    }

    /// Tells the gap: no element sees the line.
    pub fn gap(&self) -> (b: bool)
        ensures
            b == self.is_gap(),
    {
        self.count_active() == 0
    }

    /// Tells the finish marker: every element sees the line.
    pub fn marker(&self) -> (b: bool)
        ensures
            b == self.is_marker(),
    {
        self.count_active() == 4
    }

    /// The sensor normaliser.  Over a gap it hands `previous` back; otherwise
    /// the result is the weighted sum of the elements that see the line, in
    /// quarters.
    pub fn normalize(&self, previous: SteeringError) -> (error: SteeringError)
        ensures
            error@ == self.normalized(previous@),
    {
        if self.gap() {
            return previous;
        }
        let mut sum: i8 = 0;
        let mut i: usize = 0;
        while i < SENSORS
            invariant
                i <= SENSORS,
                sum == self.weight_among(i as int),
                -3 * i <= sum <= 3 * i,
            decreases SENSORS - i,
        {
            if !self.raw[i] {
                sum = sum + weight_of(i);
            }
            i = i + 1;
        }
        proof {
            lemma_weighted_sum_in_range(*self);
        }
        SteeringError { quarters: sum }
    }
}

/// Every weighted sum is a steering error: it lies between -1 and 1.
pub proof fn lemma_weighted_sum_in_range(reading: TrackReading)
    ensures
        SteeringError::admits(reading.weighted_sum()),
{
    reveal_with_fuel(TrackReading::weight_among, 5);
}

/// A reading in which no element sees the line leaves the steering error as
/// it was, whatever it was.
pub proof fn lemma_gap_holds_error(reading: TrackReading, previous: int)
    requires
        forall|j: int| 0 <= j < SENSORS ==> !reading.active(j),
    ensures
        reading.is_gap(),
        reading.normalized(previous) == previous,
{
    reveal_with_fuel(TrackReading::active_among, 5);
    assert(!reading.active(0) && !reading.active(1) && !reading.active(2) && !reading.active(3));
}

/// A reading in which element `i` alone sees the line gives the weight of
/// `i`, in quarters, whatever the error was before.
pub proof fn lemma_single_element(reading: TrackReading, i: int, previous: int)
    requires
        0 <= i < SENSORS,
        forall|j: int| 0 <= j < SENSORS ==> (reading.active(j) <==> j == i),
    ensures
        reading.normalized(previous) == weight(i),
{
    reveal_with_fuel(TrackReading::weight_among, 5);
    reveal_with_fuel(TrackReading::active_among, 5);
    assert(reading.active(0) <==> 0 == i);
    assert(reading.active(1) <==> 1 == i);
    assert(reading.active(2) <==> 2 == i);
    assert(reading.active(3) <==> 3 == i);
}

/// A gap and a finish marker are never the same reading.
pub proof fn lemma_gap_is_no_marker(reading: TrackReading)
    ensures
        !(reading.is_gap() && reading.is_marker()),
{
}

} // verus!
