//! The turn-rate integrator: a momentum that builds up while the steering
//! error keeps its sign, and drops to nothing when it does not.

use vstd::prelude::*;
use crate::lerp::{lerp, lerp_num, lemma_lerp_between};
use crate::sensor::SteeringError;

verus! {

/// The momentum of full commitment to a turn.  Momentum is counted in units of
/// `1 / FULL`.
pub const FULL: u32 = 1_000_000;

/// One step takes momentum `1 / RAMP` of the way to `FULL`.
pub const RAMP: u32 = 10;

/// Whether two steering errors, in quarters, lie on the same side of the
/// line: both nonzero and of one sign.
pub open spec fn same_side(previous: int, current: int) -> bool {
    previous * current > 0
}

/// Momentum `m` after one more error on the same side: a tenth of the way
/// from `m` to `FULL`, rounded down to a whole unit.
pub open spec fn ramped(m: int) -> int {
    lerp_num(m, FULL as int, 1, RAMP as int) / (RAMP as int)
}

/// Momentum after an error `current` that follows `previous`, where there was
/// one.  It grows only where both lie on the same side; otherwise it is gone
/// at once.
pub open spec fn integrated(m: int, previous: Option<int>, current: int) -> int {
    match previous {
        Some(p) => if same_side(p, current) {
            ramped(m)
        } else {
            0
        },
        None => 0,
    }
}

/// Momentum at the end of a phase in which the steering errors `history` were
/// seen, in this order, starting from none.
pub open spec fn momentum_after(history: Seq<int>) -> int
    decreases history.len(),
{
    if history.len() == 0 {
        0
    } else {
        let before = history.drop_last();
        integrated(
            momentum_after(before),
            if before.len() == 0 {
                None
            } else {
                Some(before.last())
            },
            history.last(),
        )
    }
}

/// The commitment to a turn, between 0 and 1, held as a whole number of
/// millionths.
#[derive(Clone, Copy, Debug, PartialEq, Eq, Structural)]
pub struct Momentum {
    millionths: u32,
}

impl View for Momentum {
    type V = int;

    /// The momentum in units of `1 / FULL`.
    closed spec fn view(&self) -> int {
        self.millionths as int
    }
}

impl Momentum {
    #[verifier::type_invariant]
    closed spec fn in_range(self) -> bool {
        self.millionths <= FULL
    }

    /// Whether `m` millionths is a momentum, that is, lies in [0, 1].
    pub open spec fn admits(m: int) -> bool {
        0 <= m <= FULL
    }

    /// No momentum: the value at the start of every phase.
    pub fn zero() -> (momentum: Momentum)
        ensures
            momentum@ == 0,
    {
        Momentum { millionths: 0 }
    }

    /// The momentum of `m` millionths, if that lies in [0, 1].
    pub fn from_millionths(m: u32) -> (momentum: Option<Momentum>)
        ensures
            momentum is Some <==> Self::admits(m as int),
            momentum is Some ==> momentum->Some_0@ == m,
    {
        if m <= FULL {
            Some(Momentum { millionths: m })
        } else {
            None
        }
    }

    /// The momentum in millionths.
    pub fn millionths(&self) -> (m: u32)
        ensures
            m == self@,
            Self::admits(m as int),
    {
        proof {
            use_type_invariant(self);
        }
        self.millionths
    }

    /// The turn-rate integrator.  `previous` is the steering error of the
    /// tick before, if there was one in this phase, and `current` that of
    /// this tick.
    pub fn integrate(self, previous: Option<SteeringError>, current: SteeringError) -> (next:
        Momentum)
        ensures
            next@ == integrated(
                self@,
                match previous {
                    Some(p) => Some(p@),
                    None => None,
                },
                current@,
            ),
    {
        let c: i8 = current.quarters();
        match previous {
            Some(p) => {
                let q: i8 = p.quarters();
                proof {
                    assert(same_side(q as int, c as int) <==> (q > 0 && c > 0) || (q < 0 && c
                        < 0)) by (nonlinear_arith);
                }
                if (q > 0 && c > 0) || (q < 0 && c < 0) {
                    let m: u32 = self.millionths();
                    proof {
                        lemma_ramped_in_range(m as int);
                    }
                    let numerator: i64 = lerp(m as i64, FULL as i64, 1, RAMP as i64);
                    let stepped: i64 = numerator / (RAMP as i64);
                    Momentum { millionths: stepped as u32 }
                } else {
                    Momentum::zero()
                }
            },
            None => Momentum::zero(),
        }
    }
}

/// One more step never takes momentum back, nor above `FULL`.
pub proof fn lemma_ramped_in_range(m: int)
    requires
        Momentum::admits(m),
    ensures
        m <= ramped(m) <= FULL,
        Momentum::admits(ramped(m)),
        ramped(m) == m + (FULL - m) / (RAMP as int),
{
    lemma_lerp_between(m, FULL as int, 1, RAMP as int);
    assert(lerp_num(m, FULL as int, 1, RAMP as int) == m * 10 + (FULL - m));
}

/// Momentum never leaves [0, 1], whatever errors come in.
pub proof fn lemma_integrated_in_range(m: int, previous: Option<int>, current: int)
    requires
        Momentum::admits(m),
    ensures
        Momentum::admits(integrated(m, previous, current)),
{
    lemma_ramped_in_range(m);
}

/// While the error stays on one side, momentum does not fall.
pub proof fn lemma_same_side_grows(m: int, previous: int, current: int)
    requires
        Momentum::admits(m),
        same_side(previous, current),
    ensures
        m <= integrated(m, Some(previous), current),
{
    lemma_ramped_in_range(m);
}

/// When the error changes side, or either error is centred, momentum is
/// exactly zero after that tick.
pub proof fn lemma_flip_resets(m: int, previous: int, current: int)
    requires
        !same_side(previous, current),
    ensures
        integrated(m, Some(previous), current) == 0,
{
}

/// The momentum of a phase never leaves [0, 1].
pub proof fn lemma_momentum_after_in_range(history: Seq<int>)
    ensures
        Momentum::admits(momentum_after(history)),
    decreases history.len(),
{
    if history.len() > 0 {
        let before = history.drop_last();
        lemma_momentum_after_in_range(before);
        lemma_integrated_in_range(
            momentum_after(before),
            if before.len() == 0 {
                None
            } else {
                Some(before.last())
            },
            history.last(),
        );
    }
}

/// Across a run of errors that all lie on one side, momentum is monotonically
/// non-decreasing: between ticks `i` and `j` of a phase, where every error
/// after `i` up to `j` lies on the side of the one before it, the momentum
/// after tick `j` is at least that after tick `i`.
pub proof fn lemma_momentum_monotone_on_run(history: Seq<int>, i: int, j: int)
    requires
        0 <= i <= j < history.len(),
        forall|k: int| i < k <= j ==> same_side(#[trigger] history[k - 1], history[k]),
    ensures
        momentum_after(history.take(i + 1)) <= momentum_after(history.take(j + 1)),
    decreases j - i,
{
    if i < j {
        lemma_momentum_monotone_on_run(history, i, j - 1);
        let upto = history.take(j + 1);
        let before = upto.drop_last();
        assert(before =~= history.take(j));
        assert(upto.last() == history[j]);
        assert(before.last() == history[j - 1]);
        assert(same_side(history[j - 1], history[j]));
        lemma_momentum_after_in_range(before);
        lemma_same_side_grows(momentum_after(before), history[j - 1], history[j]);
    }
}

/// The tick after the error changes side, the momentum of the phase is
/// exactly zero.
pub proof fn lemma_momentum_zero_after_flip(history: Seq<int>, k: int)
    requires
        1 <= k < history.len(),
        !same_side(history[k - 1], history[k]),
    ensures
        momentum_after(history.take(k + 1)) == 0,
{
    let upto = history.take(k + 1);
    let before = upto.drop_last();
    assert(before =~= history.take(k));
    assert(upto.last() == history[k]);
    assert(before.last() == history[k - 1]);
}

} // verus!
