//! Position bookkeeping for a digital potentiometer that cannot be read back.
//!
//! The chip listens on three lines and never answers, so the controller knows
//! where the wiper is only from what it has sent. [`Digipot`] keeps that record
//! and turns every request into the exact list of [`Signal`]s to put on the
//! lines; whoever owns the pins carries them out in order.

use vstd::prelude::*;
use crate::signal::{lemma_concat, lemma_push, pulses, steps_taken, Line, Lines, Signal};

verus! {

/// Direction of travel of the wiper.
#[derive(Clone, Copy, PartialEq, Eq, Debug, Structural)]
pub enum Direction {
    Up,
    Down,
}

/// The waiting times of the protocol, in nanoseconds. They differ between
/// variants of the chip.
#[derive(Clone, Copy, PartialEq, Eq, Debug, Structural)]
pub struct Timing {
    /// From enabling the chip to the first edge on the increment line.
    pub select_ns: u64,
    /// The shortest rest of the increment line between two edges.
    pub edge_ns: u64,
    /// After the chip has been disabled, until the position is stored.
    pub settle_ns: u64,
}

impl Timing {
    /// 200 ns to select, 5 µs between edges, 20 ms to settle.
    pub open spec fn standard() -> Timing {
        Timing { select_ns: 200, edge_ns: 5_000, settle_ns: 20_000_000 }
    }
}

impl Default for Timing {
    fn default() -> (timing: Timing)
        ensures
            timing == Timing::standard(),
    {
        Timing { select_ns: 200, edge_ns: 5_000, settle_ns: 20_000_000 }
    }
}

/// `step` brought into the range from 1 to `steps`.
pub open spec fn clamp_step(step: int, steps: int) -> int {
    if step < 1 {
        1
    } else if step > steps {
        steps
    } else {
        step
    }
}

/// The number of steps between two positions.
pub open spec fn distance(from: int, to: int) -> nat {
    if to >= from {
        (to - from) as nat
    } else {
        (from - to) as nat
    }
}

/// The direction in which the wiper is sent from `from` to reach `to`: down
/// towards a higher step, up towards a lower one.
pub open spec fn direction_toward(from: int, to: int) -> Direction {
    if to > from {
        Direction::Down
    } else {
        Direction::Up
    }
}

/// The level of the up/down line that selects `ud`: high for up.
pub open spec fn direction_level(ud: Direction) -> bool {
    ud == Direction::Up
}

/// The signal that selects `ud` on the up/down line.
pub open spec fn direction_signal(ud: Direction) -> Signal {
    match ud {
        Direction::Up => Signal::SetHigh(Line::UpDown),
        Direction::Down => Signal::SetLow(Line::UpDown),
    }
}

/// How many of the `distance` steps of a wipe in direction `ud` go in the
/// direction `up`: all of them or none.
pub open spec fn wipe_steps(distance: nat, ud: Direction, up: bool) -> nat {
    if up == direction_level(ud) {
        distance
    } else {
        0
    }
}

/// What is sent when the controller takes over the lines: all three are driven
/// high, chip-select first, so that the chip is disabled before anything else
/// moves.
pub open spec fn startup_signals() -> Seq<Signal> {
    seq![
        Signal::SetHigh(Line::ChipSelect),
        Signal::SetHigh(Line::Increment),
        Signal::SetHigh(Line::UpDown),
    ]
}

/// What is sent when the controller gives up the lines.
pub open spec fn teardown_signals() -> Seq<Signal> {
    seq![Signal::SetHigh(Line::ChipSelect)]
}

/// What opens a wipe: the increment line is brought to rest, the chip is
/// enabled, and the direction is chosen.
pub open spec fn wipe_opening(timing: Timing, ud: Direction) -> Seq<Signal> {
    seq![
        Signal::SetHigh(Line::Increment),
        Signal::SetLow(Line::ChipSelect),
        direction_signal(ud),
        Signal::Hold(timing.select_ns),
    ]
}

/// The falling edge that selects volatile storage. The chip takes it as the
/// first step of the wipe.
pub open spec fn mode_select(timing: Timing) -> Seq<Signal> {
    seq![Signal::SetLow(Line::Increment), Signal::Hold(timing.edge_ns)]
}

/// One pulse on the increment line: two edges, each followed by a rest.
pub open spec fn pulse(timing: Timing) -> Seq<Signal> {
    seq![
        Signal::Toggle(Line::Increment),
        Signal::Hold(timing.edge_ns),
        Signal::Toggle(Line::Increment),
        Signal::Hold(timing.edge_ns),
    ]
}

/// `count` pulses in a row.
pub open spec fn pulse_train(timing: Timing, count: nat) -> Seq<Signal>
    decreases count,
{
    if count == 0 {
        Seq::empty()
    } else {
        pulse_train(timing, (count - 1) as nat) + pulse(timing)
    }
}

/// What closes a wipe: the chip is disabled, the increment line returns to
/// rest, and the chip is given time to store the position.
pub open spec fn wipe_closing(timing: Timing) -> Seq<Signal> {
    seq![
        Signal::SetHigh(Line::ChipSelect),
        Signal::Hold(timing.edge_ns),
        Signal::SetHigh(Line::Increment),
        Signal::Hold(timing.settle_ns),
    ]
}

/// The signals of one wipe of `distance` steps in direction `ud`. A wipe of no
/// steps sends nothing. A volatile wipe spends its first step on the edge that
/// selects the mode.
pub open spec fn wipe_signals(
    timing: Timing,
    distance: nat,
    ud: Direction,
    volatile: bool,
) -> Seq<Signal> {
    if distance == 0 {
        Seq::empty()
    } else if volatile {
        wipe_opening(timing, ud) + mode_select(timing)
            + pulse_train(timing, (distance - 1) as nat) + wipe_closing(timing)
    } else {
        wipe_opening(timing, ud) + pulse_train(timing, distance) + wipe_closing(timing)
    }
}

/// The levels at which a wipe in direction `ud` leaves the lines.
pub open spec fn lines_after_wipe(ud: Direction) -> Lines {
    Lines { chip_select: true, increment: true, up_down: direction_level(ud) }
}

proof fn lemma_wipe_opening(start: Lines, timing: Timing, ud: Direction, up: bool)
    ensures
        start.after_all(wipe_opening(timing, ud)) == (Lines {
            chip_select: false,
            increment: true,
            up_down: direction_level(ud),
        }),
        steps_taken(start, wipe_opening(timing, ud), up) == 0,
{
    let s0 = Seq::<Signal>::empty();
    let s1 = s0.push(Signal::SetHigh(Line::Increment));
    let s2 = s1.push(Signal::SetLow(Line::ChipSelect));
    let s3 = s2.push(direction_signal(ud));
    let s4 = s3.push(Signal::Hold(timing.select_ns));
    lemma_push(start, s0, Signal::SetHigh(Line::Increment), up);
    lemma_push(start, s1, Signal::SetLow(Line::ChipSelect), up);
    lemma_push(start, s2, direction_signal(ud), up);
    lemma_push(start, s3, Signal::Hold(timing.select_ns), up);
    assert(wipe_opening(timing, ud) == s4);
}

proof fn lemma_mode_select(start: Lines, timing: Timing, up: bool)
    requires
        !start.chip_select,
        start.increment,
    ensures
        start.after_all(mode_select(timing)) == (Lines { increment: false, ..start }),
        steps_taken(start, mode_select(timing), up) == (if up == start.up_down {
            1nat
        } else {
            0nat
        }),
{
    let s0 = Seq::<Signal>::empty();
    let s1 = s0.push(Signal::SetLow(Line::Increment));
    let s2 = s1.push(Signal::Hold(timing.edge_ns));
    lemma_push(start, s0, Signal::SetLow(Line::Increment), up);
    lemma_push(start, s1, Signal::Hold(timing.edge_ns), up);
    assert(mode_select(timing) == s2);
}

proof fn lemma_pulse(start: Lines, timing: Timing, up: bool)
    requires
        !start.chip_select,
    ensures
        start.after_all(pulse(timing)) == start,
        steps_taken(start, pulse(timing), up) == (if up == start.up_down {
            1nat
        } else {
            0nat
        }),
{
    let s0 = Seq::<Signal>::empty();
    let s1 = s0.push(Signal::Toggle(Line::Increment));
    let s2 = s1.push(Signal::Hold(timing.edge_ns));
    let s3 = s2.push(Signal::Toggle(Line::Increment));
    let s4 = s3.push(Signal::Hold(timing.edge_ns));
    lemma_push(start, s0, Signal::Toggle(Line::Increment), up);
    lemma_push(start, s1, Signal::Hold(timing.edge_ns), up);
    lemma_push(start, s2, Signal::Toggle(Line::Increment), up);
    lemma_push(start, s3, Signal::Hold(timing.edge_ns), up);
    assert(pulse(timing) == s4);
}

proof fn lemma_pulse_train(start: Lines, timing: Timing, count: nat, up: bool)
    requires
        !start.chip_select,
    ensures
        start.after_all(pulse_train(timing, count)) == start,
        steps_taken(start, pulse_train(timing, count), up) == (if up == start.up_down {
            count
        } else {
            0nat
        }),
    decreases count,
{
    if count > 0 {
        let before = pulse_train(timing, (count - 1) as nat);
        lemma_pulse_train(start, timing, (count - 1) as nat, up);
        lemma_concat(start, before, pulse(timing), up);
        lemma_pulse(start, timing, up);
    }
}

proof fn lemma_wipe_closing(start: Lines, timing: Timing, up: bool)
    requires
        !start.chip_select,
    ensures
        start.after_all(wipe_closing(timing)) == (Lines {
            chip_select: true,
            increment: true,
            ..start
        }),
        steps_taken(start, wipe_closing(timing), up) == 0,
{
    let s0 = Seq::<Signal>::empty();
    let s1 = s0.push(Signal::SetHigh(Line::ChipSelect));
    let s2 = s1.push(Signal::Hold(timing.edge_ns));
    let s3 = s2.push(Signal::SetHigh(Line::Increment));
    let s4 = s3.push(Signal::Hold(timing.settle_ns));
    lemma_push(start, s0, Signal::SetHigh(Line::ChipSelect), up);
    lemma_push(start, s1, Signal::Hold(timing.edge_ns), up);
    lemma_push(start, s2, Signal::SetHigh(Line::Increment), up);
    lemma_push(start, s3, Signal::Hold(timing.settle_ns), up);
    assert(wipe_closing(timing) == s4);
}

proof fn lemma_wipe_steps(
    start: Lines,
    timing: Timing,
    distance: nat,
    ud: Direction,
    volatile: bool,
    up: bool,
)
    ensures
        steps_taken(start, wipe_signals(timing, distance, ud, volatile), up) == wipe_steps(
            distance,
            ud,
            up,
        ),
        distance == 0 ==> start.after_all(wipe_signals(timing, distance, ud, volatile)) == start,
        distance > 0 ==> start.after_all(wipe_signals(timing, distance, ud, volatile))
            == lines_after_wipe(ud),
{
    if distance > 0 {
        let opening = wipe_opening(timing, ud);
        let closing = wipe_closing(timing);
        let enabled = start.after_all(opening);
        lemma_wipe_opening(start, timing, ud, up);
        if volatile {
            let select = mode_select(timing);
            let train = pulse_train(timing, (distance - 1) as nat);
            let low = enabled.after_all(select);
            lemma_mode_select(enabled, timing, up);
            lemma_pulse_train(low, timing, (distance - 1) as nat, up);
            lemma_wipe_closing(low, timing, up);
            lemma_concat(start, opening, select, up);
            lemma_concat(start, opening + select, train, up);
            lemma_concat(start, opening + select + train, closing, up);
        } else {
            let train = pulse_train(timing, distance);
            lemma_pulse_train(enabled, timing, distance, up);
            lemma_wipe_closing(enabled, timing, up);
            lemma_concat(start, opening, train, up);
            lemma_concat(start, opening + train, closing, up);
        }
    }
}

/// A wipe moves the wiper by exactly the distance asked for, every step of it
/// in the direction asked for, whatever the levels it starts from. A wipe that
/// sends anything ends with the chip disabled and the increment line at rest.
pub proof fn lemma_wipe(start: Lines, timing: Timing, distance: nat, ud: Direction, volatile: bool)
    ensures
        steps_taken(start, wipe_signals(timing, distance, ud, volatile), direction_level(ud))
            == distance,
        steps_taken(start, wipe_signals(timing, distance, ud, volatile), !direction_level(ud))
            == 0,
        pulses(start, wipe_signals(timing, distance, ud, volatile)) == distance,
        distance == 0 ==> wipe_signals(timing, distance, ud, volatile) == Seq::<Signal>::empty(),
        distance == 0 ==> start.after_all(wipe_signals(timing, distance, ud, volatile)) == start,
        distance > 0 ==> start.after_all(wipe_signals(timing, distance, ud, volatile))
            == lines_after_wipe(ud),
{
    lemma_wipe_steps(start, timing, distance, ud, volatile, true);
    lemma_wipe_steps(start, timing, distance, ud, volatile, false);
}

/// What a [`Digipot`] knows: the number of steps of the chip, the position of
/// the wiper if it is known, the waiting times, and the level at which each
/// line was last left.
pub struct DigipotView {
    pub steps: int,
    pub position: Option<int>,
    pub timing: Timing,
    pub lines: Lines,
}

impl DigipotView {
    /// There is at least one step, a known position lies between 1 and the
    /// number of steps, and between two operations the chip is disabled and
    /// the increment line is at rest.
    pub open spec fn wf(self) -> bool {
        &&& 1 <= self.steps <= u8::MAX
        &&& (self.position matches Some(p) ==> 1 <= p <= self.steps)
        &&& self.lines.chip_select
        &&& self.lines.increment
    }

    /// A controller that has just taken over the lines of a chip of `steps`
    /// steps: the position is not known yet.
    pub open spec fn fresh(steps: int, timing: Timing) -> DigipotView {
        DigipotView {
            steps: if steps < 1 {
                1
            } else {
                steps
            },
            position: None,
            timing,
            lines: Lines::idle_levels(),
        }
    }

    /// After a wipe: the record of the position is left alone.
    pub open spec fn after_wipe(self, distance: nat, ud: Direction) -> DigipotView {
        DigipotView {
            lines: if distance == 0 {
                self.lines
            } else {
                lines_after_wipe(ud)
            },
            ..self
        }
    }

    /// The end of travel in direction `ud`.
    pub open spec fn extreme(self, ud: Direction) -> int {
        match ud {
            Direction::Up => self.steps,
            Direction::Down => 1,
        }
    }

    /// A reset wipes the whole range, so that the wiper stands at the end of
    /// travel wherever it was before.
    pub open spec fn reset_signals(self, ud: Direction) -> Seq<Signal> {
        wipe_signals(self.timing, self.steps as nat, ud, false)
    }

    /// After a reset the position is known.
    pub open spec fn after_reset(self, ud: Direction) -> DigipotView {
        DigipotView {
            position: Some(self.extreme(ud)),
            ..self.after_wipe(self.steps as nat, ud)
        }
    }

    /// The position from which a `set` starts to move: the known one, or else
    /// step 1, to which it first resets.
    pub open spec fn origin(self) -> int {
        match self.position {
            Some(p) => p,
            None => 1,
        }
    }

    /// What a `set` sends before it moves: nothing if the position is known,
    /// a reset downwards if it is not.
    pub open spec fn baseline_signals(self) -> Seq<Signal> {
        if self.position is Some {
            Seq::empty()
        } else {
            self.reset_signals(Direction::Down)
        }
    }

    /// The controller once the position is known.
    pub open spec fn baseline(self) -> DigipotView {
        if self.position is Some {
            self
        } else {
            self.after_reset(Direction::Down)
        }
    }

    /// The one wipe by which a `set` moves from its origin to the target.
    pub open spec fn move_signals(self, step: int, volatile: bool) -> Seq<Signal> {
        let from = self.origin();
        let to = clamp_step(step, self.steps);
        wipe_signals(self.timing, distance(from, to), direction_toward(from, to), volatile)
    }

    /// Everything a `set` sends.
    pub open spec fn set_signals(self, step: int, volatile: bool) -> Seq<Signal> {
        self.baseline_signals() + self.move_signals(step, volatile)
    }

    /// How many steps the wiper takes in the direction `up` in the course of
    /// a `set`: those of the reset downwards, if there is one, and those of
    /// the move.
    pub open spec fn set_steps(self, step: int, up: bool) -> nat {
        let from = self.origin();
        let to = clamp_step(step, self.steps);
        let baseline = if self.position is Some {
            0
        } else {
            wipe_steps(self.steps as nat, Direction::Down, up)
        };
        baseline + wipe_steps(distance(from, to), direction_toward(from, to), up)
    }

    /// After a `set` the position is the target, brought into range.
    pub open spec fn after_set(self, step: int) -> DigipotView {
        let from = self.origin();
        let to = clamp_step(step, self.steps);
        DigipotView {
            position: Some(to),
            ..self.baseline().after_wipe(distance(from, to), direction_toward(from, to))
        }
    }

    /// The controller after one `set` for each of `targets`, in order.
    pub open spec fn after_sets(self, targets: Seq<int>) -> DigipotView
        decreases targets.len(),
    {
        if targets.len() == 0 {
            self
        } else {
            self.after_sets(targets.drop_last()).after_set(targets.last())
        }
    }
}

/// `step` brought into the range from 1 to `steps`.
fn clamp_to(step: u8, steps: u8) -> (clamped: u8)
    requires
        steps >= 1,
    ensures
        clamped == clamp_step(step as int, steps as int),
        1 <= clamped <= steps,
{
    if step < 1 {
        1
    } else if step > steps {
        steps
    } else {
        step
    }
}

/// A recorded position as a number without bounds.
pub open spec fn recorded(position: Option<u8>) -> Option<int> {
    match position {
        Some(p) => Some(p as int),
        None => None,
    }
}

/// Controller of one digital potentiometer.
pub struct Digipot {
    steps: u8,
    current_step: Option<u8>,
    timing: Timing,
    lines: Lines,
}

impl View for Digipot {
    type V = DigipotView;

    closed spec fn view(&self) -> DigipotView {
        DigipotView {
            steps: self.steps as int,
            position: recorded(self.current_step),
            timing: self.timing,
            lines: self.lines,
        }
    }
}

impl Digipot {
    #[verifier::type_invariant]
    spec fn inv(self) -> bool {
        self@.wf()
    }

    /// Takes over the lines of a chip of `steps` steps, with the standard
    /// waiting times. A count of 0 is taken as 1. The signals returned drive
    /// all three lines to their resting level; the position is not known
    /// until the first `reset` or `set`.
    pub fn new(steps: u8) -> (made: (Digipot, Vec<Signal>))
        ensures
            made.0@ == DigipotView::fresh(steps as int, Timing::standard()),
            made.0@.wf(),
            made.1@ == startup_signals(),
            forall|start: Lines| #[trigger] start.after_all(made.1@) == made.0@.lines,
            forall|start: Lines| #[trigger] pulses(start, made.1@) == 0,
    {
        Digipot::with_timing(steps, Timing::default())
    }

    /// As `new`, for a chip with other waiting times.
    pub fn with_timing(steps: u8, timing: Timing) -> (made: (Digipot, Vec<Signal>))
        ensures
            made.0@ == DigipotView::fresh(steps as int, timing),
            made.0@.wf(),
            made.1@ == startup_signals(),
            forall|start: Lines| #[trigger] start.after_all(made.1@) == made.0@.lines,
            forall|start: Lines| #[trigger] pulses(start, made.1@) == 0,
    {
        let steps: u8 = if steps == 0 {
            1
        } else {
            steps
        };
        let mut signals: Vec<Signal> = Vec::new();
        signals.push(Signal::SetHigh(Line::ChipSelect));
        signals.push(Signal::SetHigh(Line::Increment));
        signals.push(Signal::SetHigh(Line::UpDown));
        proof {
            assert(signals@ == startup_signals());
            assert forall|start: Lines| #[trigger]
                start.after_all(signals@) == Lines::idle_levels() by {
                lemma_startup(start);
            }
            assert forall|start: Lines| #[trigger] pulses(start, signals@) == 0 by {
                lemma_startup(start);
            }
        }
        (Digipot { steps, current_step: None, timing, lines: Lines::idle() }, signals)
    }

    /// The number of steps of the chip.
    pub fn steps(&self) -> (steps: u8)
        ensures
            steps == self@.steps,
            steps >= 1,
    {
        proof {
            use_type_invariant(self);
        }
        self.steps
    }

    /// The position of the wiper, if it is known.
    pub fn current_step(&self) -> (position: Option<u8>)
        ensures
            self@.position == recorded(position),
            position matches Some(p) ==> 1 <= p <= self@.steps,
    {
        proof {
            use_type_invariant(self);
        }
        self.current_step
    }

    /// The waiting times in use.
    pub fn timing(&self) -> (timing: Timing)
        ensures
            timing == self@.timing,
    {
        self.timing
    }

    /// The level at which each line was last left.
    pub fn lines(&self) -> (lines: Lines)
        ensures
            lines == self@.lines,
            lines.chip_select,
            lines.increment,
    {
        proof {
            use_type_invariant(self);
        }
        self.lines
    }

    /// Moves the wiper `steps` steps in direction `ud`, storing the result in
    /// volatile memory if `volatile` is set and in non-volatile memory if not.
    /// The record of the position is not touched. With `steps == 0` nothing is
    /// sent.
    pub fn wipe(&mut self, steps: u8, ud: Direction, volatile: bool) -> (signals: Vec<Signal>)
        ensures
            signals@ == wipe_signals(old(self)@.timing, steps as nat, ud, volatile),
            final(self)@ == old(self)@.after_wipe(steps as nat, ud),
            final(self)@.wf(),
            final(self)@.position == old(self)@.position,
            final(self)@.lines == old(self)@.lines.after_all(signals@),
            forall|start: Lines, up: bool| #[trigger]
                steps_taken(start, signals@, up) == wipe_steps(steps as nat, ud, up),
            forall|start: Lines| #[trigger] pulses(start, signals@) == steps,
            forall|start: Lines|
                steps > 0 ==> #[trigger] start.after_all(signals@) == lines_after_wipe(ud),
    {
        proof {
            use_type_invariant(&*self);
        }
        let timing = self.timing;
        let mut signals: Vec<Signal> = Vec::new();
        if steps > 0 {
            signals.push(Signal::SetHigh(Line::Increment));
            signals.push(Signal::SetLow(Line::ChipSelect));
            signals.push(
                match ud {
                    Direction::Up => Signal::SetHigh(Line::UpDown),
                    Direction::Down => Signal::SetLow(Line::UpDown),
                },
            );
            signals.push(Signal::Hold(timing.select_ns));
            let mut remaining: u8 = steps;
            if volatile {
                signals.push(Signal::SetLow(Line::Increment));
                signals.push(Signal::Hold(timing.edge_ns));
                remaining = remaining - 1;
            }
            let ghost head = signals@;
            assert(head == if volatile {
                wipe_opening(timing, ud) + mode_select(timing)
            } else {
                wipe_opening(timing, ud)
            });
            let mut sent: u8 = 0;
            while sent < remaining
                invariant
                    sent <= remaining,
                    signals@ == head + pulse_train(timing, sent as nat),
                decreases remaining - sent,
            {
                signals.push(Signal::Toggle(Line::Increment));
                signals.push(Signal::Hold(timing.edge_ns));
                signals.push(Signal::Toggle(Line::Increment));
                signals.push(Signal::Hold(timing.edge_ns));
                sent = sent + 1;
                assert(signals@ == head + (pulse_train(timing, (sent - 1) as nat) + pulse(timing)));
            }
            let ghost body = signals@;
            signals.push(Signal::SetHigh(Line::ChipSelect));
            signals.push(Signal::Hold(timing.edge_ns));
            signals.push(Signal::SetHigh(Line::Increment));
            signals.push(Signal::Hold(timing.settle_ns));
            assert(signals@ == body + wipe_closing(timing));
            self.lines = Lines {
                chip_select: true,
                increment: true,
                up_down: match ud {
                    Direction::Up => true,
                    Direction::Down => false,
                },
            };
        }
        proof {
            assert(signals@ == wipe_signals(timing, steps as nat, ud, volatile));
            assert forall|start: Lines, up: bool| #[trigger]
                steps_taken(start, signals@, up) == wipe_steps(steps as nat, ud, up) by {
                lemma_wipe(start, timing, steps as nat, ud, volatile);
            }
            assert forall|start: Lines| #[trigger] pulses(start, signals@) == steps by {
                lemma_wipe(start, timing, steps as nat, ud, volatile);
            }
            assert forall|start: Lines| steps > 0 implies #[trigger] start.after_all(signals@)
                == lines_after_wipe(ud) by {
                lemma_wipe(start, timing, steps as nat, ud, volatile);
            }
            lemma_wipe(old(self)@.lines, timing, steps as nat, ud, volatile);
        }
        signals
    }

    /// Wipes the whole range in direction `reset_direction`, which leaves the
    /// wiper at that end of travel wherever it stood, and records the position:
    /// the number of steps after a reset upwards, 1 after a reset downwards.
    pub fn reset(&mut self, reset_direction: Direction) -> (signals: Vec<Signal>)
        ensures
            signals@ == old(self)@.reset_signals(reset_direction),
            final(self)@ == old(self)@.after_reset(reset_direction),
            final(self)@.wf(),
            final(self)@.position == Some(old(self)@.extreme(reset_direction)),
            final(self)@.lines == old(self)@.lines.after_all(signals@),
            forall|start: Lines, up: bool| #[trigger]
                steps_taken(start, signals@, up) == wipe_steps(
                    old(self)@.steps as nat,
                    reset_direction,
                    up,
                ),
            forall|start: Lines| #[trigger] pulses(start, signals@) == old(self)@.steps,
    {
        proof {
            use_type_invariant(&*self);
        }
        let steps = self.steps;
        let signals = self.wipe(steps, reset_direction, false);
        self.current_step = match reset_direction {
            Direction::Up => Some(steps),
            Direction::Down => Some(1),
        };
        signals
    }

    /// Brings the wiper to `step`, taken into the range from 1 to the number of
    /// steps. If the position is not known, the chip is first reset downwards.
    /// Then one wipe covers the distance to the target, downwards if the target
    /// is the higher step and upwards if it is the lower; if the wiper is there
    /// already, nothing more is sent.
    pub fn set_specified_volatile(&mut self, step: u8, volatile: bool) -> (signals: Vec<Signal>)
        ensures
            signals@ == old(self)@.set_signals(step as int, volatile),
            final(self)@ == old(self)@.after_set(step as int),
            final(self)@.wf(),
            final(self)@.position == Some(clamp_step(step as int, old(self)@.steps)),
            final(self)@.lines == old(self)@.lines.after_all(signals@),
            forall|start: Lines, up: bool| #[trigger]
                steps_taken(start, signals@, up) == old(self)@.set_steps(step as int, up),
            forall|start: Lines|
                old(self)@.position is Some ==> #[trigger] pulses(start, signals@) == distance(
                    old(self)@.origin(),
                    clamp_step(step as int, old(self)@.steps),
                ),
            forall|start: Lines|
                old(self)@.position is None ==> #[trigger] pulses(start, signals@)
                    == old(self)@.steps + distance(1, clamp_step(step as int, old(self)@.steps)),
    {
        proof {
            use_type_invariant(&*self);
        }
        let step = clamp_to(step, self.steps);
        let mut signals: Vec<Signal> = Vec::new();
        if self.current_step.is_none() {
            signals = self.reset(Direction::Down);
        }
        let ghost baseline = signals@;
        let current_step = self.current_step.unwrap();
        let direction = if step > current_step {
            Direction::Down
        } else {
            Direction::Up
        };
        let distance: u8 = if step > current_step {
            step - current_step
        } else {
            current_step - step
        };
        let mut movement = self.wipe(distance, direction, volatile);
        let ghost moved = movement@;
        signals.append(&mut movement);
        self.current_step = Some(step);
        proof {
            assert forall|start: Lines, up: bool| #[trigger]
                steps_taken(start, signals@, up) == old(self)@.set_steps(step as int, up) by {
                lemma_concat(start, baseline, moved, up);
            }
            lemma_concat(old(self)@.lines, baseline, moved, true);
        }
        signals
    }

    /// `set_specified_volatile` with storage in non-volatile memory, so that
    /// the chip returns to this position when it is next powered.
    pub fn set(&mut self, step: u8) -> (signals: Vec<Signal>)
        ensures
            signals@ == old(self)@.set_signals(step as int, false),
            final(self)@ == old(self)@.after_set(step as int),
            final(self)@.wf(),
            final(self)@.position == Some(clamp_step(step as int, old(self)@.steps)),
            final(self)@.lines == old(self)@.lines.after_all(signals@),
            forall|start: Lines, up: bool| #[trigger]
                steps_taken(start, signals@, up) == old(self)@.set_steps(step as int, up),
            forall|start: Lines|
                old(self)@.position is Some ==> #[trigger] pulses(start, signals@) == distance(
                    old(self)@.origin(),
                    clamp_step(step as int, old(self)@.steps),
                ),
            forall|start: Lines|
                old(self)@.position is None ==> #[trigger] pulses(start, signals@)
                    == old(self)@.steps + distance(1, clamp_step(step as int, old(self)@.steps)),
    {
        self.set_specified_volatile(step, false)
    }

    /// What to send when the controller gives up the lines: chip-select is
    /// driven high whatever the lines carry at that moment, be it in the middle
    /// of a wipe, so that the chip is never left enabled.
    pub fn teardown(&mut self) -> (signals: Vec<Signal>)
        ensures
            signals@ == teardown_signals(),
            final(self)@ == old(self)@,
            forall|start: Lines| #[trigger]
                start.after_all(signals@) == (Lines { chip_select: true, ..start }),
            forall|start: Lines| #[trigger] pulses(start, signals@) == 0,
    {
        let mut signals: Vec<Signal> = Vec::new();
        signals.push(Signal::SetHigh(Line::ChipSelect));
        proof {
            assert(signals@ == teardown_signals());
            assert forall|start: Lines| #[trigger]
                start.after_all(signals@) == (Lines { chip_select: true, ..start }) by {
                lemma_teardown(start);
            }
            assert forall|start: Lines| #[trigger] pulses(start, signals@) == 0 by {
                lemma_teardown(start);
            }
        }
        signals
    }
}

/// Taking over the lines brings them to rest and moves nothing, from any
/// levels.
pub proof fn lemma_startup(start: Lines)
    ensures
        start.after_all(startup_signals()) == Lines::idle_levels(),
        pulses(start, startup_signals()) == 0,
{
    let s0 = Seq::<Signal>::empty();
    let s1 = s0.push(Signal::SetHigh(Line::ChipSelect));
    let s2 = s1.push(Signal::SetHigh(Line::Increment));
    let s3 = s2.push(Signal::SetHigh(Line::UpDown));
    lemma_push(start, s0, Signal::SetHigh(Line::ChipSelect), true);
    lemma_push(start, s1, Signal::SetHigh(Line::Increment), true);
    lemma_push(start, s2, Signal::SetHigh(Line::UpDown), true);
    lemma_push(start, s0, Signal::SetHigh(Line::ChipSelect), false);
    lemma_push(start, s1, Signal::SetHigh(Line::Increment), false);
    lemma_push(start, s2, Signal::SetHigh(Line::UpDown), false);
    assert(startup_signals() == s3);
}

/// Giving up the lines disables the chip and moves nothing, from any levels.
pub proof fn lemma_teardown(start: Lines)
    ensures
        start.after_all(teardown_signals()) == (Lines { chip_select: true, ..start }),
        start.after_all(teardown_signals()).chip_select,
        pulses(start, teardown_signals()) == 0,
{
    let s0 = Seq::<Signal>::empty();
    lemma_push(start, s0, Signal::SetHigh(Line::ChipSelect), true);
    lemma_push(start, s0, Signal::SetHigh(Line::ChipSelect), false);
    assert(teardown_signals() == s0.push(Signal::SetHigh(Line::ChipSelect)));
}

/// A wipe of no steps sends nothing: no pulse is issued, the lines and the
/// record stay as they are, and the chip stays disabled.
pub proof fn lemma_wipe_of_nothing(v: DigipotView, ud: Direction, volatile: bool, start: Lines)
    requires
        v.wf(),
    ensures
        wipe_signals(v.timing, 0, ud, volatile) == Seq::<Signal>::empty(),
        pulses(start, wipe_signals(v.timing, 0, ud, volatile)) == 0,
        v.after_wipe(0, ud) == v,
        v.after_wipe(0, ud).lines.chip_select,
{
}

/// A reset upwards leaves the record at the number of steps and a reset
/// downwards at 1, whatever was recorded before and also if nothing was. It
/// issues as many pulses as the chip has steps, all in the direction of the
/// reset.
pub proof fn lemma_reset(v: DigipotView, ud: Direction, start: Lines)
    requires
        v.wf(),
    ensures
        v.after_reset(Direction::Up).position == Some(v.steps),
        v.after_reset(Direction::Down).position == Some(1int),
        v.after_reset(ud).wf(),
        v.after_reset(ud).steps == v.steps,
        pulses(start, v.reset_signals(ud)) == v.steps,
        steps_taken(start, v.reset_signals(ud), direction_level(ud)) == v.steps,
        v.after_reset(ud).lines == v.lines.after_all(v.reset_signals(ud)),
{
    lemma_wipe(start, v.timing, v.steps as nat, ud, false);
    lemma_wipe(v.lines, v.timing, v.steps as nat, ud, false);
}

/// After a `set` the record is the target brought into range. From a known
/// position the call issues as many pulses as there are steps between that
/// position and the target, all of them downwards if the target is the higher
/// step and upwards if it is the lower. From an unknown position it issues the
/// pulses of the reset downwards and then those from step 1 to the target.
pub proof fn lemma_set(v: DigipotView, step: int, volatile: bool, start: Lines)
    requires
        v.wf(),
    ensures
        v.after_set(step).wf(),
        v.after_set(step).steps == v.steps,
        v.after_set(step).position == Some(clamp_step(step, v.steps)),
        v.after_set(step).lines == v.lines.after_all(v.set_signals(step, volatile)),
        steps_taken(start, v.set_signals(step, volatile), true) == v.set_steps(step, true),
        steps_taken(start, v.set_signals(step, volatile), false) == v.set_steps(step, false),
        v.position matches Some(p) ==> pulses(start, v.set_signals(step, volatile)) == distance(
            p,
            clamp_step(step, v.steps),
        ),
        v.position is None ==> pulses(start, v.set_signals(step, volatile)) == v.steps + distance(
            1,
            clamp_step(step, v.steps),
        ),
        pulses(start.after_all(v.baseline_signals()), v.move_signals(step, volatile)) == distance(
            v.origin(),
            clamp_step(step, v.steps),
        ),
{
    let from = v.origin();
    let to = clamp_step(step, v.steps);
    let baseline = v.baseline_signals();
    let movement = v.move_signals(step, volatile);
    lemma_concat(start, baseline, movement, true);
    lemma_concat(start, baseline, movement, false);
    lemma_concat(v.lines, baseline, movement, true);
    lemma_wipe(
        start.after_all(baseline),
        v.timing,
        distance(from, to),
        direction_toward(from, to),
        volatile,
    );
    lemma_wipe(
        v.lines.after_all(baseline),
        v.timing,
        distance(from, to),
        direction_toward(from, to),
        volatile,
    );
    if v.position is None {
        lemma_wipe(start, v.timing, v.steps as nat, Direction::Down, false);
        lemma_wipe(v.lines, v.timing, v.steps as nat, Direction::Down, false);
    } else {
        assert(start.after_all(baseline) == start);
        assert(v.lines.after_all(baseline) == v.lines);
    }
}

/// A `set` to the position that the wiper already has sends nothing at all.
pub proof fn lemma_set_in_place(v: DigipotView, step: int, volatile: bool, start: Lines)
    requires
        v.wf(),
        v.position == Some(clamp_step(step, v.steps)),
    ensures
        v.set_signals(step, volatile) == Seq::<Signal>::empty(),
        pulses(start, v.set_signals(step, volatile)) == 0,
        v.after_set(step) == v,
{
    assert(v.set_signals(step, volatile) =~= Seq::<Signal>::empty());
}

/// In any run of `set` calls, each call leaves the record at its target
/// brought into range, and each call after the first issues as many pulses as
/// there are steps between the previous target and its own.
pub proof fn lemma_sets_in_a_row(
    v: DigipotView,
    targets: Seq<int>,
    next: int,
    volatile: bool,
    start: Lines,
)
    requires
        v.wf(),
        targets.len() > 0,
    ensures
        v.after_sets(targets).wf(),
        v.after_sets(targets).steps == v.steps,
        v.after_sets(targets).position == Some(clamp_step(targets.last(), v.steps)),
        v.after_sets(targets.push(next)).position == Some(clamp_step(next, v.steps)),
        pulses(start, v.after_sets(targets).set_signals(next, volatile)) == distance(
            clamp_step(targets.last(), v.steps),
            clamp_step(next, v.steps),
        ),
    decreases targets.len(),
{
    let earlier = targets.drop_last();
    let before = v.after_sets(earlier);
    if earlier.len() > 0 {
        lemma_sets_in_a_row(v, earlier, targets.last(), volatile, start);
    }
    lemma_set(before, targets.last(), volatile, start);
    lemma_set(v.after_sets(targets), next, volatile, start);
    assert(targets.push(next).drop_last() == targets);
}

} // verus!
