//! The three lines of the potentiometer, the signals sent over them, and an
//! in-memory model of the levels they carry.
//!
//! The model stands in for the chip where there is none: it carries out a list
//! of signals and counts the steps that the wiper of a real chip would take.

use vstd::prelude::*;

verus! {

/// One of the three output lines between the controller and the potentiometer.
#[derive(Clone, Copy, PartialEq, Eq, Debug, Structural)]
pub enum Line {
    /// Enables the chip while low, disables it while high.
    ChipSelect,
    /// Moves the wiper one step on each falling edge while the chip is enabled.
    Increment,
    /// Selects the direction of travel: high for up, low for down.
    UpDown,
}

/// One thing the controller asks of the hardware.
#[derive(Clone, Copy, PartialEq, Eq, Debug, Structural)]
pub enum Signal {
    /// Drive the line high.
    SetHigh(Line),
    /// Drive the line low.
    SetLow(Line),
    /// Drive the line to the opposite of its present level.
    Toggle(Line),
    /// Leave all lines as they are for this many nanoseconds.
    Hold(u64),
}

/// The level of each line; `true` is high.
#[derive(Clone, Copy, PartialEq, Eq, Debug, Structural)]
pub struct Lines {
    pub chip_select: bool,
    pub increment: bool,
    pub up_down: bool,
}

/// How many steps the wiper has taken in each direction.
#[derive(Clone, Copy, PartialEq, Eq, Debug, Structural)]
pub struct Travel {
    pub up: usize,
    pub down: usize,
}

impl Lines {
    /// The level of `line`.
    pub open spec fn level(self, line: Line) -> bool {
        match line {
            Line::ChipSelect => self.chip_select,
            Line::Increment => self.increment,
            Line::UpDown => self.up_down,
        }
    }

    /// These levels with `line` driven to `high`.
    pub open spec fn with_level(self, line: Line, high: bool) -> Lines {
        match line {
            Line::ChipSelect => Lines { chip_select: high, ..self },
            Line::Increment => Lines { increment: high, ..self },
            Line::UpDown => Lines { up_down: high, ..self },
        }
    }

    /// The levels once `signal` has been carried out.
    pub open spec fn after(self, signal: Signal) -> Lines {
        match signal {
            Signal::SetHigh(line) => self.with_level(line, true),
            Signal::SetLow(line) => self.with_level(line, false),
            Signal::Toggle(line) => self.with_level(line, !self.level(line)),
            Signal::Hold(_) => self,
        }
    }

    /// Whether `signal`, arriving at these levels, moves the wiper: a falling
    /// edge on the increment line while the chip is enabled.
    pub open spec fn steps_wiper(self, signal: Signal) -> bool {
        !self.chip_select && self.increment && !self.after(signal).increment
    }

    /// The number of steps, 0 or 1, by which `signal` moves the wiper in the
    /// direction `up`. The wiper goes up while the up/down line is high and
    /// down while it is low.
    pub open spec fn step_count(self, signal: Signal, up: bool) -> nat {
        if self.steps_wiper(signal) && self.up_down == up {
            1
        } else {
            0
        }
    }

    /// The levels once every signal of `signals` has been carried out in order.
    pub open spec fn after_all(self, signals: Seq<Signal>) -> Lines
        decreases signals.len(),
    {
        if signals.len() == 0 {
            self
        } else {
            self.after_all(signals.drop_last()).after(signals.last())
        }
    }

    /// All three lines high: the chip disabled and the increment line at rest.
    pub open spec fn idle_levels() -> Lines {
        Lines { chip_select: true, increment: true, up_down: true }
    }

    /// All three lines high.
    pub fn idle() -> (lines: Lines)
        ensures
            lines == Lines::idle_levels(),
    {
        Lines { chip_select: true, increment: true, up_down: true }
    }

    /// Reads the level of one line.
    pub fn read(&self, line: Line) -> (high: bool)
        ensures
            high == self.level(line),
    {
        match line {
            Line::ChipSelect => self.chip_select,
            Line::Increment => self.increment,
            Line::UpDown => self.up_down,
        }
    }

    /// Drives one line to the given level.
    pub fn drive(&mut self, line: Line, high: bool)
        ensures
            *final(self) == old(self).with_level(line, high),
    {
        match line {
            Line::ChipSelect => {
                self.chip_select = high;
            },
            Line::Increment => {
                self.increment = high;
            },
            Line::UpDown => {
                self.up_down = high;
            },
        }
    }

    /// Carries out one signal and reports whether it moved the wiper.
    pub fn apply(&mut self, signal: Signal) -> (stepped: bool)
        ensures
            *final(self) == old(self).after(signal),
            stepped == old(self).steps_wiper(signal),
    {
        let before = *self;
        match signal {
            Signal::SetHigh(line) => self.drive(line, true),
            Signal::SetLow(line) => self.drive(line, false),
            Signal::Toggle(line) => {
                let high = self.read(line);
                self.drive(line, !high)
            },
            Signal::Hold(_) => {},
        }
        !before.chip_select && before.increment && !self.increment
    }
}

/// How many steps the wiper takes in the direction `up` while `signals` are
/// carried out in order, starting from the levels `start`.
pub open spec fn steps_taken(start: Lines, signals: Seq<Signal>, up: bool) -> nat
    decreases signals.len(),
{
    if signals.len() == 0 {
        0
    } else {
        let before = signals.drop_last();
        steps_taken(start, before, up) + start.after_all(before).step_count(signals.last(), up)
    }
}

/// How many steps the wiper takes in all while `signals` are carried out.
pub open spec fn pulses(start: Lines, signals: Seq<Signal>) -> nat {
    steps_taken(start, signals, true) + steps_taken(start, signals, false)
}

impl Lines {
    /// Carries out `signals` in order and counts the steps that the wiper
    /// takes in each direction.
    pub fn play(&mut self, signals: &[Signal]) -> (travel: Travel)
        ensures
            *final(self) == old(self).after_all(signals@),
            travel.up == steps_taken(*old(self), signals@, true),
            travel.down == steps_taken(*old(self), signals@, false),
            travel.up + travel.down == pulses(*old(self), signals@),
    {
        let mut travel = Travel { up: 0, down: 0 };
        let mut i: usize = 0;
        while i < signals.len()
            invariant
                i <= signals.len(),
                travel.up + travel.down <= i,
                *self == old(self).after_all(signals@.take(i as int)),
                travel.up == steps_taken(*old(self), signals@.take(i as int), true),
                travel.down == steps_taken(*old(self), signals@.take(i as int), false),
            decreases signals.len() - i,
        {
            proof {
                let next = signals@.take(i + 1);
                assert(next.drop_last() == signals@.take(i as int));
                assert(next.last() == signals@[i as int]);
            }
            let up = self.up_down;
            let stepped = self.apply(signals[i]);
            if stepped {
                if up {
                    travel.up = travel.up + 1;
                } else {
                    travel.down = travel.down + 1;
                }
            }
            i = i + 1;
        }
        proof {
            assert(signals@.take(i as int) == signals@);
        }
        travel
    }
}

/// Carrying out one more signal at the end.
pub proof fn lemma_push(start: Lines, signals: Seq<Signal>, next: Signal, up: bool)
    ensures
        start.after_all(signals.push(next)) == start.after_all(signals).after(next),
        steps_taken(start, signals.push(next), up) == steps_taken(start, signals, up)
            + start.after_all(signals).step_count(next, up),
{
    assert(signals.push(next).drop_last() == signals);
}

/// Carrying out `first` and then `second` is carrying out `second` from where
/// `first` left the lines, and the steps add up.
pub proof fn lemma_concat(start: Lines, first: Seq<Signal>, second: Seq<Signal>, up: bool)
    ensures
        start.after_all(first + second) == start.after_all(first).after_all(second),
        steps_taken(start, first + second, up) == steps_taken(start, first, up) + steps_taken(
            start.after_all(first),
            second,
            up,
        ),
    decreases second.len(),
{
    if second.len() == 0 {
        assert(first + second == first);
    } else {
        lemma_concat(start, first, second.drop_last(), up);
        assert((first + second).drop_last() == first + second.drop_last());
        assert((first + second).last() == second.last());
    }
}

} // verus!
