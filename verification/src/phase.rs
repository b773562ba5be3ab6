//! The phase controller: the state machine that takes the robot through the
//! exploring lap, the analysis, the pause and the fast lap.
//!
//! The controller does no input or output.  It asks for one thing at a time,
//! by an `Action`, and is told what came of it, by an `Event`.  Whoever runs
//! it performs the action and hands the event back.

use vstd::prelude::*;
use crate::lap::{analyze_lap, is_lap_model, merged};
use crate::mixer::{mix, mixed_left, mixed_right, WheelCommand, FAST_SPEED, SCOUT_SPEED};
use crate::momentum::{integrated, lemma_integrated_in_range, momentum_after, Momentum};
use crate::segment::{classify, segment_at, Segment};
use crate::sensor::{
    lemma_quarters_of_push,
    lemma_weighted_sum_in_range,
    quarters_of,
    SteeringError,
    TrackReading,
};

verus! {

/// A finish marker ends a lap only once this many steering errors have been
/// taken, so that the marker under the start line is passed over.
pub const MIN_SAMPLES: usize = 100;

/// How long the pause between the laps lasts, in milliseconds.
pub const PAUSE_MILLIS: u64 = 1000;

/// Where the robot is in its run.
#[derive(Clone, Copy, Debug, PartialEq, Eq, Structural)]
pub enum Phase {
    /// The first lap, driven slowly, in which the track is recorded.
    Scout,
    /// The first lap is over and the robot is being stopped; the lap model is
    /// made next.
    Analyzing,
    /// The lap model is made; the robot stands still for `PAUSE_MILLIS`.
    Paused,
    /// The second lap, driven faster.
    FastLap,
    /// The run is over.
    Stopped,
}

/// What the controller asks for.
#[derive(Clone, Copy, Debug, PartialEq, Eq, Structural)]
pub enum Action {
    /// Read the cancellation flag, and answer with `Event::Flag`.
    Poll,
    /// Read the line sensor, and answer with `Event::Reading`.
    Sense,
    /// Send these wheel speeds, then read the cancellation flag, and answer
    /// with `Event::Flag`.
    Drive(WheelCommand),
    /// Stop the robot, and answer with `Event::Halted` whether or not the
    /// robot took the command.
    Stop,
    /// Wait for `PAUSE_MILLIS`, and answer with `Event::Resumed`.
    Pause,
    /// Nothing is left to do.
    Exit,
}

/// What the controller is told.
#[derive(Clone, Copy, Debug, PartialEq, Eq)]
pub enum Event {
    /// The cancellation flag, as it was read: `true` asks for a stop.
    Flag(bool),
    /// What the line sensor read.
    Reading(TrackReading),
    /// The robot was told to stop.
    Halted,
    /// The pause is over.
    Resumed,
    /// Reading the sensor or sending the wheel speeds failed.
    LinkFailed,
}

/// The controller as a mathematical value.
pub struct ControllerState {
    pub phase: Phase,
    /// Within a lap: whether the flag was read for this tick and the line
    /// sensor's reading is awaited.
    pub sensing: bool,
    /// The steering errors of the current lap, in quarters, oldest first.
    pub history: Seq<int>,
    /// The momentum, in millionths.
    pub momentum: int,
    /// The lap model, once the first lap is analysed.
    pub model: Seq<(Segment, usize)>,
    /// The segment that the robot was on at the latest tick of the fast lap.
    pub live: Option<Segment>,
}

/// Whether the robot drives in this phase.
pub open spec fn is_lap(phase: Phase) -> bool {
    phase == Phase::Scout || phase == Phase::FastLap
}

/// The base speed of a phase, in thousandths of full power.
pub open spec fn base_speed(phase: Phase) -> int {
    if phase == Phase::FastLap {
        FAST_SPEED as int
    } else {
        SCOUT_SPEED as int
    }
}

/// The phase that follows a lap that ended at the finish marker.
pub open spec fn after_lap(phase: Phase) -> Phase {
    if phase == Phase::Scout {
        Phase::Analyzing
    } else {
        Phase::Stopped
    }
}

/// The steering error of the tick before, if there was one in this lap.
pub open spec fn previous_error(history: Seq<int>) -> Option<int> {
    if history.len() == 0 {
        None
    } else {
        Some(history.last())
    }
}

/// The steering error that is held over a gap: that of the tick before, and
/// at the start of a lap that of a robot on the line.
pub open spec fn held_error(history: Seq<int>) -> int {
    if history.len() == 0 {
        0
    } else {
        history.last()
    }
}

/// The state in which every run begins.
pub open spec fn initial() -> ControllerState {
    ControllerState {
        phase: Phase::Scout,
        sensing: false,
        history: Seq::empty(),
        momentum: 0,
        model: Seq::empty(),
        live: None,
    }
}

/// What the controller waits for in state `s`: the action whose answer it
/// takes next.
pub open spec fn request(s: ControllerState) -> Action {
    match s.phase {
        Phase::Scout | Phase::FastLap => if s.sensing {
            Action::Sense
        } else {
            Action::Poll
        },
        Phase::Analyzing => Action::Stop,
        Phase::Paused => Action::Pause,
        Phase::Stopped => Action::Exit,
    }
}

/// Whether `reading` ends the lap: it shows the finish marker, and enough
/// steering errors have been taken.
pub open spec fn finishes(s: ControllerState, reading: TrackReading) -> bool {
    reading.is_marker() && s.history.len() >= MIN_SAMPLES
}

/// The state with the run broken off.
pub open spec fn stopped(s: ControllerState) -> ControllerState {
    ControllerState { phase: Phase::Stopped, sensing: false, ..s }
}

/// The state after a tick of a lap in which `reading` came in and did not end
/// the lap: the steering error is normalised and recorded, momentum is
/// integrated, and in the fast lap the segment under the robot is noted.
pub open spec fn sampled(s: ControllerState, reading: TrackReading) -> ControllerState {
    let error = reading.normalized(held_error(s.history));
    let history = s.history.push(error);
    ControllerState {
        sensing: false,
        history,
        momentum: integrated(s.momentum, previous_error(s.history), error),
        live: if s.phase == Phase::FastLap {
            Some(segment_at(history, history.len() - 1))
        } else {
            s.live
        },
        ..s
    }
}

/// The state in which the fast lap begins: nothing recorded, no momentum.
pub open spec fn resumed(s: ControllerState) -> ControllerState {
    ControllerState {
        phase: Phase::FastLap,
        sensing: false,
        history: Seq::empty(),
        momentum: 0,
        live: None,
        ..s
    }
}

/// Whether `command` is what the drive mixer gives in state `s`, for the
/// latest steering error and the momentum at the base speed of the phase.
pub open spec fn is_command(s: ControllerState, command: WheelCommand) -> bool {
    &&& command.left == mixed_left(held_error(s.history), s.momentum, base_speed(s.phase))
    &&& command.right == mixed_right(held_error(s.history), s.momentum, base_speed(s.phase))
}

/// One step of the controller: in state `pre` the event `event` leads to the
/// state `post` and the action `action`.
///
/// - When the run is over, nothing changes and the answer is `Exit`.
/// - A failed link breaks the run off: the robot is to be stopped.
/// - In a lap, a set flag breaks the run off and the robot is to be stopped,
///   with the history as it was; a clear flag asks for the sensor.
/// - In a lap, a reading that shows the finish marker, after `MIN_SAMPLES`
///   steering errors, ends the lap: the robot is to be stopped.  After the
///   first lap the analysis follows, after the fast lap the end.  Any other
///   reading is one more tick and gives the wheel speeds.
/// - Once the robot is stopped after the first lap, the lap model is made and
///   the pause begins; once the pause is over, the fast lap begins.
/// - An event that does not answer what was asked changes nothing, and the
///   request is made again.
pub open spec fn step_spec(
    pre: ControllerState,
    event: Event,
    post: ControllerState,
    action: Action,
) -> bool {
    if pre.phase == Phase::Stopped {
        post == pre && action == Action::Exit
    } else if event is LinkFailed {
        post == stopped(pre) && action == Action::Stop
    } else if is_lap(pre.phase) && !pre.sensing && event is Flag {
        if event->Flag_0 {
            post == stopped(pre) && action == Action::Stop
        } else {
            post == (ControllerState { sensing: true, ..pre }) && action == Action::Sense
        }
    } else if is_lap(pre.phase) && pre.sensing && event is Reading {
        if finishes(pre, event->Reading_0) {
            post == (ControllerState { phase: after_lap(pre.phase), sensing: false, ..pre })
                && action == Action::Stop
        } else {
            post == sampled(pre, event->Reading_0) && action is Drive && is_command(
                post,
                action->Drive_0,
            )
        }
    } else if pre.phase == Phase::Analyzing && event is Halted {
        post == (ControllerState { phase: Phase::Paused, model: post.model, ..pre })
            && is_lap_model(post.model, pre.history) && action == Action::Pause
    } else if pre.phase == Phase::Paused && event is Resumed {
        post == resumed(pre) && action == Action::Poll
    } else {
        post == pre && action == request(pre)
    }
}

/// What holds of the controller in every state that a run can reach.
pub open spec fn inv(s: ControllerState) -> bool {
    &&& forall|i: int| 0 <= i < s.history.len() ==> SteeringError::admits(#[trigger] s.history[i])
    &&& s.momentum == momentum_after(s.history)
    &&& Momentum::admits(s.momentum)
    &&& s.sensing ==> is_lap(s.phase)
    &&& merged(s.model)
    &&& s.phase == Phase::Paused ==> is_lap_model(s.model, s.history)
    &&& (s.phase == Phase::Scout || s.phase == Phase::Analyzing) ==> s.model.len() == 0
    &&& s.phase == Phase::Analyzing ==> s.history.len() >= MIN_SAMPLES
}

/// The phase controller.
pub struct Controller {
    phase: Phase,
    sensing: bool,
    history: Vec<SteeringError>,
    momentum: Momentum,
    model: Vec<(Segment, usize)>,
    live: Option<Segment>,
}

impl View for Controller {
    type V = ControllerState;

    closed spec fn view(&self) -> ControllerState {
        ControllerState {
            phase: self.phase,
            sensing: self.sensing,
            history: quarters_of(self.history@),
            momentum: self.momentum@,
            model: self.model@,
            live: self.live,
        }
    }
}

impl Controller {
    /// A controller at the start of a run.
    pub fn new() -> (controller: Controller)
        ensures
            controller@ == initial(),
            inv(controller@),
    {
        let controller = Controller {
            phase: Phase::Scout,
            sensing: false,
            history: Vec::new(),
            momentum: Momentum::zero(),
            model: Vec::new(),
            live: None,
        };
        assert(controller@.history =~= Seq::<int>::empty());
        controller
    }

    /// The phase that the run is in.
    pub fn phase(&self) -> (phase: Phase)
        ensures
            phase == self@.phase,
    {
        self.phase
    }

    /// The steering errors recorded in the current lap, oldest first.
    pub fn history(&self) -> (history: &Vec<SteeringError>)
        ensures
            quarters_of(history@) == self@.history,
    {
        &self.history
    }

    /// The momentum.
    pub fn momentum(&self) -> (momentum: Momentum)
        ensures
            momentum@ == self@.momentum,
    {
        self.momentum
    }

    /// The lap model; empty until the first lap is analysed.
    pub fn lap_model(&self) -> (model: &Vec<(Segment, usize)>)
        ensures
            model@ == self@.model,
    {
        &self.model
    }

    /// The segment under the robot at the latest tick of the fast lap.
    pub fn live_segment(&self) -> (live: Option<Segment>)
        ensures
            live == self@.live,
    {
        self.live
    }

    /// The action whose answer the controller waits for.  A run starts by
    /// performing it.
    pub fn request(&self) -> (action: Action)
        ensures
            action == request(self@),
    {
        match self.phase {
            Phase::Scout | Phase::FastLap => if self.sensing {
                Action::Sense
            } else {
                Action::Poll
            },
            Phase::Analyzing => Action::Stop,
            Phase::Paused => Action::Pause,
            Phase::Stopped => Action::Exit,
        }
    }

    /// Takes one steering error from `reading`, and gives the wheel speeds
    /// for it.
    fn sample(&mut self, reading: TrackReading) -> (command: WheelCommand)
        requires
            is_lap(old(self)@.phase),
        ensures
            final(self)@ == sampled(old(self)@, reading),
            is_command(final(self)@, command),
    {
        let n: usize = self.history.len();
        let previous: Option<SteeringError> = if n == 0 {
            None
        } else {
            Some(self.history[n - 1])
        };
        let held: SteeringError = match previous {
            Some(p) => p,
            None => SteeringError::centered(),
        };
        let error: SteeringError = reading.normalize(held);
        let momentum: Momentum = self.momentum.integrate(previous, error);
        proof {
            lemma_quarters_of_push(self.history@, error);
        }
        self.history.push(error);
        self.momentum = momentum;
        self.sensing = false;
        let fast: bool = match self.phase {
            Phase::FastLap => true,
            _ => false,
        };
        if fast {
            self.live = Some(classify(&self.history, n));
        }
        let speed: u16 = if fast {
            FAST_SPEED
        } else {
            SCOUT_SPEED
        };
        mix(error, momentum, speed)
    }

    /// Takes `event` and gives the next action.
    pub fn step(&mut self, event: Event) -> (action: Action)
        ensures
            step_spec(old(self)@, event, final(self)@, action),
            inv(old(self)@) ==> inv(final(self)@),
    {
        let action: Action = match (self.phase, event) {
            (Phase::Stopped, _) => Action::Exit,
            (_, Event::LinkFailed) => {
                self.phase = Phase::Stopped;
                self.sensing = false;
                Action::Stop
            },
            (Phase::Scout, Event::Flag(cancelled)) | (Phase::FastLap, Event::Flag(cancelled)) => {
                if self.sensing {
                    self.request()
                } else if cancelled {
                    self.phase = Phase::Stopped;
                    Action::Stop
                } else {
                    self.sensing = true;
                    Action::Sense
                }
            },
            (Phase::Scout, Event::Reading(reading)) | (Phase::FastLap, Event::Reading(reading)) => {
                if !self.sensing {
                    self.request()
                } else if reading.marker() && self.history.len() >= MIN_SAMPLES {
                    self.phase = match self.phase {
                        Phase::Scout => Phase::Analyzing,
                        _ => Phase::Stopped,
                    };
                    self.sensing = false;
                    Action::Stop
                } else {
                    Action::Drive(self.sample(reading))
                }
            },
            (Phase::Analyzing, Event::Halted) => {
                self.model = analyze_lap(&self.history);
                self.phase = Phase::Paused;
                Action::Pause
            },
            (Phase::Paused, Event::Resumed) => {
                self.history = Vec::new();
                self.momentum = Momentum::zero();
                self.live = None;
                self.sensing = false;
                self.phase = Phase::FastLap;
                assert(quarters_of(self.history@) =~= Seq::<int>::empty());
                Action::Poll
            },
            _ => self.request(),
        };
        proof {
            lemma_step_keeps_inv(old(self)@, event, self@, action);
        }
        action
    }
}

/// A run starts in a state in which the invariant holds.
pub proof fn lemma_initial_inv()
    ensures
        inv(initial()),
{
}

/// One more tick keeps what the invariant says of the history and the
/// momentum.
pub proof fn lemma_sampled_keeps_inv(s: ControllerState, reading: TrackReading)
    requires
        inv(s),
        is_lap(s.phase),
    ensures
        inv(sampled(s, reading)),
{
    let post = sampled(s, reading);
    let error = reading.normalized(held_error(s.history));
    lemma_weighted_sum_in_range(reading);
    assert(SteeringError::admits(error));
    assert(post.history.drop_last() =~= s.history);
    lemma_integrated_in_range(s.momentum, previous_error(s.history), error);
    assert forall|i: int| 0 <= i < post.history.len() implies SteeringError::admits(
        #[trigger] post.history[i],
    ) by {
        if i < s.history.len() {
            assert(post.history[i] == s.history[i]);
        }
    }
}

/// No step leads out of the states in which the invariant holds.
pub proof fn lemma_step_keeps_inv(
    pre: ControllerState,
    event: Event,
    post: ControllerState,
    action: Action,
)
    requires
        step_spec(pre, event, post, action),
    ensures
        inv(pre) ==> inv(post),
{
    if inv(pre) {
        if pre.phase != Phase::Stopped && !(event is LinkFailed) && is_lap(pre.phase)
            && pre.sensing && event is Reading && !finishes(pre, event->Reading_0) {
            lemma_sampled_keeps_inv(pre, event->Reading_0);
        }
    }
}

/// A finish marker that comes before `MIN_SAMPLES` steering errors are taken
/// does not end the lap: it is a tick like any other.
pub proof fn lemma_early_marker_is_a_tick(
    pre: ControllerState,
    reading: TrackReading,
    post: ControllerState,
    action: Action,
)
    requires
        is_lap(pre.phase),
        pre.sensing,
        pre.history.len() < MIN_SAMPLES,
        step_spec(pre, Event::Reading(reading), post, action),
    ensures
        post.phase == pre.phase,
        post.history.len() == pre.history.len() + 1,
        action is Drive,
{
}

/// A finish marker that comes once `MIN_SAMPLES` steering errors are taken
/// ends the lap: the robot is stopped and nothing more is recorded.  After
/// the first lap the analysis follows, after the fast lap the end.
pub proof fn lemma_marker_ends_lap(
    pre: ControllerState,
    reading: TrackReading,
    post: ControllerState,
    action: Action,
)
    requires
        is_lap(pre.phase),
        pre.sensing,
        reading.is_marker(),
        pre.history.len() >= MIN_SAMPLES,
        step_spec(pre, Event::Reading(reading), post, action),
    ensures
        action == Action::Stop,
        post.history == pre.history,
        pre.phase == Phase::Scout ==> post.phase == Phase::Analyzing,
        pre.phase == Phase::FastLap ==> post.phase == Phase::Stopped,
{
}

/// A set cancellation flag, read at the top of a tick, ends the run: the
/// robot is stopped, and the history is the one collected before that tick.
pub proof fn lemma_cancel_stops(pre: ControllerState, post: ControllerState, action: Action)
    requires
        is_lap(pre.phase),
        !pre.sensing,
        step_spec(pre, Event::Flag(true), post, action),
    ensures
        action == Action::Stop,
        post.phase == Phase::Stopped,
        post.history == pre.history,
{
}

/// A gap, wherever in a lap it comes, records the steering error of the tick
/// before once more.
pub proof fn lemma_gap_repeats_error(
    pre: ControllerState,
    reading: TrackReading,
    post: ControllerState,
    action: Action,
)
    requires
        is_lap(pre.phase),
        pre.sensing,
        reading.is_gap(),
        step_spec(pre, Event::Reading(reading), post, action),
    ensures
        post.history == pre.history.push(held_error(pre.history)),
{
}

/// Once the run is over it stays over, whatever comes in.
pub proof fn lemma_stopped_is_final(
    pre: ControllerState,
    event: Event,
    post: ControllerState,
    action: Action,
)
    requires
        pre.phase == Phase::Stopped,
        step_spec(pre, event, post, action),
    ensures
        post == pre,
        action == Action::Exit,
{
}

} // verus!
