//! The blink scheduler of the indicator light.
//!
//! The light shows one of three safety states as a blink pattern. A background
//! task polls a shared register for the state to show and toggles the output
//! when the running phase is over. [`BlinkTask`] is what that task decides in
//! one poll; [`IndicatorLED`] is the whole scheduler (register, output, task
//! and stop signal) as one value, polled by whoever owns the clock.
//!
//! Times are in nanoseconds on a clock that never runs backwards.

use vstd::prelude::*;

verus! {

/// What the light shows.
#[derive(PartialEq, Eq, Clone, Copy, Debug, Structural)]
pub enum SafetyState {
    /// The light is on without interruption.
    Sleep,
    /// The light blinks slowly: 1 s on, 2 s off.
    Safe,
    /// The light blinks fast: 0.5 s on, 0.5 s off.
    Unsafe,
}

impl Default for SafetyState {
    fn default() -> (state: SafetyState)
        ensures
            state == SafetyState::Sleep,
    {
        SafetyState::Sleep
    }
}

/// How long one phase of a pattern lasts.
#[derive(PartialEq, Eq, Clone, Copy, Debug, Structural)]
pub enum HalfPeriod {
    /// The phase does not end by itself.
    Unbounded,
    /// The phase lasts this many nanoseconds.
    Nanos(u64),
}

/// The lengths of the on-phase and of the off-phase.
#[derive(PartialEq, Eq, Clone, Copy, Debug, Structural)]
pub struct BlinkPattern {
    pub on: HalfPeriod,
    pub off: HalfPeriod,
}

impl BlinkPattern {
    /// The length of the phase in which the output is at the level `high`.
    pub open spec fn half_period(self, high: bool) -> HalfPeriod {
        if high {
            self.on
        } else {
            self.off
        }
    }

    /// The length of the phase in which the output is at the level `high`.
    pub fn phase(&self, high: bool) -> (length: HalfPeriod)
        ensures
            length == self.half_period(high),
    {
        if high {
            self.on
        } else {
            self.off
        }
    }
}

impl SafetyState {
    /// The pattern that shows this state.
    pub open spec fn blink_pattern(self) -> BlinkPattern {
        match self {
            SafetyState::Sleep => BlinkPattern {
                on: HalfPeriod::Unbounded,
                off: HalfPeriod::Nanos(0),
            },
            SafetyState::Safe => BlinkPattern {
                on: HalfPeriod::Nanos(1_000_000_000),
                off: HalfPeriod::Nanos(2_000_000_000),
            },
            SafetyState::Unsafe => BlinkPattern {
                on: HalfPeriod::Nanos(500_000_000),
                off: HalfPeriod::Nanos(500_000_000),
            },
        }
    }

    /// The pattern that shows this state.
    pub fn pattern(self) -> (pattern: BlinkPattern)
        ensures
            pattern == self.blink_pattern(),
    {
        match self {
            SafetyState::Sleep => BlinkPattern {
                on: HalfPeriod::Unbounded,
                off: HalfPeriod::Nanos(0),
            },
            SafetyState::Safe => BlinkPattern {
                on: HalfPeriod::Nanos(1_000_000_000),
                off: HalfPeriod::Nanos(2_000_000_000),
            },
            SafetyState::Unsafe => BlinkPattern {
                on: HalfPeriod::Nanos(500_000_000),
                off: HalfPeriod::Nanos(500_000_000),
            },
        }
    }
}

impl From<SafetyState> for BlinkPattern {
    /// The pattern that shows `state`.
    fn from(state: SafetyState) -> (pattern: BlinkPattern) {
        state.pattern()
    }
}

impl vstd::std_specs::convert::FromSpecImpl<SafetyState> for BlinkPattern {
    open spec fn obeys_from_spec() -> bool {
        true
    }

    open spec fn from_spec(state: SafetyState) -> BlinkPattern {
        state.blink_pattern()
    }
}

/// Whether a toggle scheduled for `deadline` is due at `now`: one is scheduled
/// and its time has passed.
pub open spec fn due(deadline: Option<u64>, now: u64) -> bool {
    deadline matches Some(at) && now > at
}

/// The deadline of a phase of the given length that starts at `now`. A phase
/// without end has none. One that would end beyond the range of the clock is
/// scheduled for the last instant of the clock, where it never becomes due.
pub open spec fn deadline_after(now: u64, length: HalfPeriod) -> Option<u64> {
    match length {
        HalfPeriod::Unbounded => None,
        HalfPeriod::Nanos(nanos) => Some(
            if now + nanos > u64::MAX {
                u64::MAX
            } else {
                (now + nanos) as u64
            },
        ),
    }
}

/// A phase that starts at `now` is over at `later` exactly if it has an end
/// and more than its length has passed.
pub proof fn lemma_deadline_is_exact(now: u64, length: HalfPeriod, later: u64)
    ensures
        due(deadline_after(now, length), later) <==> (length matches HalfPeriod::Nanos(nanos)
            && later > now + nanos),
{
}

/// Computes the deadline of a phase that starts at `now`.
pub fn schedule(now: u64, length: HalfPeriod) -> (deadline: Option<u64>)
    ensures
        deadline == deadline_after(now, length),
{
    match length {
        HalfPeriod::Unbounded => None,
        HalfPeriod::Nanos(nanos) => Some(now.saturating_add(nanos)),
    }
}

/// What the background task keeps between two polls: the pattern it last took
/// from the register, and when the running phase is over.
#[derive(PartialEq, Eq, Clone, Copy, Debug, Structural)]
pub struct BlinkTask {
    /// The state being shown.
    pub pattern: SafetyState,
    /// The time after which the output is toggled; `None` while the running
    /// phase has no end.
    pub next_trigger: Option<u64>,
}

impl BlinkTask {
    /// The task as it starts: it shows `Sleep`, whose on-phase has no end.
    pub open spec fn start() -> BlinkTask {
        BlinkTask { pattern: SafetyState::Sleep, next_trigger: None }
    }

    /// The first half of a poll. If the register could be read and holds
    /// another state than the one being shown, that state is taken over. The
    /// running phase keeps its deadline; only where it has none, the
    /// on-phase of the new pattern starts now.
    pub open spec fn adopted(self, now: u64, observed: Option<SafetyState>) -> BlinkTask {
        match observed {
            Some(state) => if state != self.pattern {
                BlinkTask {
                    pattern: state,
                    next_trigger: if self.next_trigger is None {
                        deadline_after(now, state.blink_pattern().on)
                    } else {
                        self.next_trigger
                    },
                }
            } else {
                self
            },
            None => self,
        }
    }

    /// Whether the second half of a poll toggles the output: the running phase
    /// is over and the output could be reached.
    pub open spec fn toggles(self, now: u64, level: Option<bool>) -> bool {
        due(self.next_trigger, now) && level is Some
    }

    /// The second half of a poll. If the output is toggled, the next phase
    /// starts now, with the length that the pattern gives to the new level.
    pub open spec fn toggled(self, now: u64, level: Option<bool>) -> BlinkTask {
        if self.toggles(now, level) {
            BlinkTask {
                next_trigger: deadline_after(
                    now,
                    self.pattern.blink_pattern().half_period(!level->0),
                ),
                ..self
            }
        } else {
            self
        }
    }

    /// The task after one poll at `now`, in which the register read `observed`
    /// (`None`: it was busy) and the output stood at `level` (`None`: it was
    /// busy).
    pub open spec fn polled(
        self,
        now: u64,
        observed: Option<SafetyState>,
        level: Option<bool>,
    ) -> BlinkTask {
        self.adopted(now, observed).toggled(now, level)
    }

    /// The level to which that poll drives the output, if it toggles it.
    pub open spec fn drive(
        self,
        now: u64,
        observed: Option<SafetyState>,
        level: Option<bool>,
    ) -> Option<bool> {
        if self.adopted(now, observed).toggles(now, level) {
            Some(!level->0)
        } else {
            None
        }
    }

    /// The task as it starts.
    pub fn new() -> (task: BlinkTask)
        ensures
            task == BlinkTask::start(),
    {
        BlinkTask { pattern: SafetyState::Sleep, next_trigger: None }
    }

    /// One poll of the background task. `observed` is what the register held,
    /// or `None` if it was busy; `level` is the level of the output, or `None`
    /// if it was busy. What was busy is left out of this poll. The result is the
    /// level to drive the output to, or `None` if it is to stay as it is.
    pub fn poll(
        &mut self,
        now: u64,
        observed: Option<SafetyState>,
        level: Option<bool>,
    ) -> (driven: Option<bool>)
        ensures
            *final(self) == old(self).polled(now, observed, level),
            driven == old(self).drive(now, observed, level),
    {
        match observed {
            Some(state) => {
                if state != self.pattern {
                    self.pattern = state;
                    if self.next_trigger.is_none() {
                        self.next_trigger = schedule(now, state.pattern().on);
                    }
                }
            },
            None => {},
        }
        match (self.next_trigger, level) {
            (Some(at), Some(high)) => {
                if now > at {
                    let next = !high;
                    self.next_trigger = schedule(now, self.pattern.pattern().phase(next));
                    Some(next)
                } else {
                    None
                }
            },
            _ => None,
        }
    }
}

/// What one poll of the scheduler meets: the time on the clock, and whether the
/// register and the output could be reached without waiting.
#[derive(PartialEq, Eq, Clone, Copy, Debug, Structural)]
pub struct Poll {
    pub now: u64,
    pub state_free: bool,
    pub output_free: bool,
}

/// Why a new state was not taken.
#[derive(PartialEq, Eq, Clone, Copy, Debug, Structural)]
pub enum SetError {
    /// The background task is gone, so nothing would show the state.
    Stopped,
}

/// The scheduler as one value: the level of the output, the register that
/// holds the state to show, what the background task keeps, and whether that
/// task is still running.
pub struct IndicatorView {
    pub output_high: bool,
    pub register: SafetyState,
    pub task: BlinkTask,
    pub running: bool,
}

impl IndicatorView {
    /// While the task runs and no toggle is scheduled, the light is on and
    /// shows `Sleep`: no other phase is without end.
    pub open spec fn wf(self) -> bool {
        self.running && self.task.next_trigger is None ==> {
            &&& self.output_high
            &&& self.task.pattern == SafetyState::Sleep
        }
    }

    /// The scheduler as it is made: the output on, `Sleep` in the register,
    /// the task running.
    pub open spec fn start() -> IndicatorView {
        IndicatorView {
            output_high: true,
            register: SafetyState::Sleep,
            task: BlinkTask::start(),
            running: true,
        }
    }

    /// After a new state has been asked for: it stands in the register, and
    /// nothing else has changed. Once the task has stopped the register is out
    /// of reach.
    pub open spec fn after_set(self, state: SafetyState) -> IndicatorView {
        if self.running {
            IndicatorView { register: state, ..self }
        } else {
            self
        }
    }

    /// What the task reads from the register in a poll.
    pub open spec fn observed(self, poll: Poll) -> Option<SafetyState> {
        if poll.state_free {
            Some(self.register)
        } else {
            None
        }
    }

    /// What the task reads from the output in a poll.
    pub open spec fn level(self, poll: Poll) -> Option<bool> {
        if poll.output_free {
            Some(self.output_high)
        } else {
            None
        }
    }

    /// Whether this poll toggles the output.
    pub open spec fn toggles(self, poll: Poll) -> bool {
        self.running && self.task.drive(poll.now, self.observed(poll), self.level(poll)) is Some
    }

    /// The scheduler after one poll of its task. A stopped task does nothing.
    pub open spec fn after_poll(self, poll: Poll) -> IndicatorView {
        if self.running {
            IndicatorView {
                output_high: if self.toggles(poll) {
                    !self.output_high
                } else {
                    self.output_high
                },
                task: self.task.polled(poll.now, self.observed(poll), self.level(poll)),
                ..self
            }
        } else {
            self
        }
    }

    /// The scheduler after a run of polls.
    pub open spec fn after_polls(self, polls: Seq<Poll>) -> IndicatorView
        decreases polls.len(),
    {
        if polls.len() == 0 {
            self
        } else {
            self.after_polls(polls.drop_last()).after_poll(polls.last())
        }
    }

    /// How often the output is toggled in a run of polls.
    pub open spec fn toggle_count(self, polls: Seq<Poll>) -> nat
        decreases polls.len(),
    {
        if polls.len() == 0 {
            0
        } else {
            let earlier = polls.drop_last();
            let last: nat = if self.after_polls(earlier).toggles(polls.last()) {
                1
            } else {
                0
            };
            self.toggle_count(earlier) + last
        }
    }

    /// After the scheduler has been taken down: the task has stopped and the
    /// output stands at the level that the caller named.
    pub open spec fn after_teardown(self, safe_high: bool) -> IndicatorView {
        IndicatorView { output_high: safe_high, running: false, ..self }
    }
}

/// The scheduler of one indicator light.
pub struct IndicatorLED {
    output_high: bool,
    state: SafetyState,
    task: BlinkTask,
    running: bool,
}

impl View for IndicatorLED {
    type V = IndicatorView;

    closed spec fn view(&self) -> IndicatorView {
        IndicatorView {
            output_high: self.output_high,
            register: self.state,
            task: self.task,
            running: self.running,
        }
    }
}

impl IndicatorLED {
    #[verifier::type_invariant]
    spec fn inv(self) -> bool {
        self@.wf()
    }

    /// Makes the scheduler: the output is on at once, the register holds
    /// `Sleep`, and the task runs.
    pub fn new() -> (led: IndicatorLED)
        ensures
            led@ == IndicatorView::start(),
            led@.wf(),
    {
        IndicatorLED {
            output_high: true,
            state: SafetyState::default(),
            task: BlinkTask::new(),
            running: true,
        }
    }

    /// Puts `state` into the register, for the task to find at its next poll.
    /// Nothing is waited for and the output is not touched. Fails, and changes
    /// nothing, once the task has stopped.
    pub fn set(&mut self, state: SafetyState) -> (result: Result<(), SetError>)
        ensures
            final(self)@ == old(self)@.after_set(state),
            final(self)@.wf(),
            old(self)@.running ==> result == Ok::<(), SetError>(()),
            !old(self)@.running ==> result == Err::<(), SetError>(SetError::Stopped),
    {
        proof {
            use_type_invariant(&*self);
        }
        if self.running {
            self.state = state;
            Ok(())
        } else {
            Err(SetError::Stopped)
        }
    }

    /// One poll of the background task at the time `now`. `state_free` and
    /// `output_free` say whether the register and the output could be reached
    /// without waiting; what could not is left out of this poll. The result is
    /// the level to which the output has been toggled, or `None` if it stays as
    /// it was.
    pub fn poll(&mut self, now: u64, state_free: bool, output_free: bool) -> (driven: Option<bool>)
        ensures
            final(self)@ == old(self)@.after_poll(Poll { now, state_free, output_free }),
            final(self)@.wf(),
            driven is Some <==> old(self)@.toggles(Poll { now, state_free, output_free }),
            driven matches Some(level) ==> level == !old(self)@.output_high
                && final(self)@.output_high == level,
    {
        proof {
            use_type_invariant(&*self);
        }
        if !self.running {
            return None;
        }
        let observed = if state_free {
            Some(self.state)
        } else {
            None
        };
        let level = if output_free {
            Some(self.output_high)
        } else {
            None
        };
        let mut task = self.task;
        let driven = task.poll(now, observed, level);
        match driven {
            Some(high) => {
                self.output_high = high;
                self.task = task;
            },
            None => {
                self.task = task;
            },
        }
        driven
    }

    /// Stops the task and leaves the output at the level `safe_high`.
    pub fn teardown(&mut self, safe_high: bool)
        ensures
            final(self)@ == old(self)@.after_teardown(safe_high),
            final(self)@.wf(),
            final(self)@.output_high == safe_high,
            !final(self)@.running,
    {
        self.running = false;
        self.output_high = safe_high;
    }

    /// Whether the output is on.
    pub fn is_high(&self) -> (high: bool)
        ensures
            high == self@.output_high,
    {
        self.output_high
    }

    /// The state in the register.
    pub fn state(&self) -> (state: SafetyState)
        ensures
            state == self@.register,
    {
        self.state
    }

    /// What the background task keeps.
    pub fn task(&self) -> (task: BlinkTask)
        ensures
            task == self@.task,
    {
        self.task
    }

    /// Whether the background task is still running.
    pub fn is_running(&self) -> (running: bool)
        ensures
            running == self@.running,
    {
        self.running
    }
}

/// Polls keep the scheduler well-formed, and they never touch the register or
/// the stop signal.
pub proof fn lemma_polls_keep_wf(v: IndicatorView, polls: Seq<Poll>)
    requires
        v.wf(),
    ensures
        v.after_polls(polls).wf(),
        v.after_polls(polls).register == v.register,
        v.after_polls(polls).running == v.running,
    decreases polls.len(),
{
    if polls.len() > 0 {
        lemma_polls_keep_wf(v, polls.drop_last());
    }
}

/// Whether a poll must leave the output alone while the phase that ends at
/// `deadline` runs: it comes no later than the deadline, or it cannot reach
/// the output.
pub open spec fn leaves_output(poll: Poll, deadline: int) -> bool {
    poll.now <= deadline || !poll.output_free
}

/// A running phase is never cut short, and it lasts until a poll after its
/// deadline reaches the output. Through all polls that come no later than the
/// deadline or cannot reach the output, the output keeps its level and the
/// deadline stays where it is, whatever the register holds.
pub proof fn lemma_phase_lasts(v: IndicatorView, deadline: u64, polls: Seq<Poll>)
    requires
        v.wf(),
        v.running,
        v.task.next_trigger == Some(deadline),
        forall|i: int| 0 <= i < polls.len() ==> leaves_output(#[trigger] polls[i], deadline as int),
    ensures
        v.after_polls(polls).output_high == v.output_high,
        v.after_polls(polls).task.next_trigger == Some(deadline),
        v.after_polls(polls).running,
        v.after_polls(polls).register == v.register,
        v.after_polls(polls).wf(),
        v.toggle_count(polls) == 0,
        forall|i: int|
            0 <= i < polls.len() && (#[trigger] polls[i]).state_free
                ==> v.after_polls(polls).task.pattern == v.register,
    decreases polls.len(),
{
    if polls.len() > 0 {
        let earlier = polls.drop_last();
        assert forall|i: int| 0 <= i < earlier.len() implies leaves_output(
            #[trigger] earlier[i],
            deadline as int,
        ) by {
            assert(earlier[i] == polls[i]);
        }
        lemma_phase_lasts(v, deadline, earlier);
        assert(polls.last() == polls[polls.len() - 1]);
        assert forall|i: int| 0 <= i < polls.len() && (#[trigger] polls[i]).state_free implies
            v.after_polls(polls).task.pattern == v.register by {
            if i < polls.len() - 1 {
                assert(earlier[i] == polls[i]);
            }
        }
    }
}

/// A phase ends at the first poll after its deadline that reaches the output.
/// That poll toggles the output, and the next phase starts at the time of the
/// poll with the length that the pattern then shown gives to the new level.
pub proof fn lemma_phase_ends(v: IndicatorView, poll: Poll)
    requires
        v.wf(),
        v.running,
        due(v.task.next_trigger, poll.now),
        poll.output_free,
    ensures
        v.toggles(poll),
        v.after_poll(poll).output_high == !v.output_high,
        v.after_poll(poll).task.pattern == (if poll.state_free {
            v.register
        } else {
            v.task.pattern
        }),
        v.after_poll(poll).task.next_trigger == deadline_after(
            poll.now,
            v.after_poll(poll).task.pattern.blink_pattern().half_period(!v.output_high),
        ),
        v.after_poll(poll).wf(),
{
}

/// The length in nanoseconds of the phases of `Safe`: 1 s on, 2 s off.
pub open spec fn safe_phase_nanos(high: bool) -> int {
    if high {
        1_000_000_000
    } else {
        2_000_000_000
    }
}

/// While `Safe` is shown, every phase lasts its full length and no longer than
/// to the next poll that reaches the output: the on-phase 1 s, the off-phase
/// 2 s. The phase begins with the toggle at `first`. Through all polls `quiet`
/// that come no later than its length after `first`, or cannot reach the
/// output, the output keeps the new level and is not toggled. The poll `last`,
/// which comes later than that and reaches the output, toggles it back.
pub proof fn lemma_safe_timing(v: IndicatorView, first: Poll, quiet: Seq<Poll>, last: Poll)
    requires
        v.wf(),
        v.running,
        v.register == SafetyState::Safe,
        v.task.pattern == SafetyState::Safe,
        due(v.task.next_trigger, first.now),
        first.output_free,
        forall|i: int|
            0 <= i < quiet.len() ==> leaves_output(
                #[trigger] quiet[i],
                first.now + safe_phase_nanos(!v.output_high),
            ),
        last.now > first.now + safe_phase_nanos(!v.output_high),
        last.output_free,
    ensures
        v.toggles(first),
        v.after_poll(first).output_high == !v.output_high,
        v.after_poll(first).after_polls(quiet).output_high == !v.output_high,
        v.after_poll(first).toggle_count(quiet) == 0,
        v.after_poll(first).after_polls(quiet).toggles(last),
        v.after_poll(first).after_polls(quiet).after_poll(last).output_high == v.output_high,
{
    let begun = v.after_poll(first);
    lemma_phase_ends(v, first);
    let deadline = begun.task.next_trigger->0;
    assert(deadline == first.now + safe_phase_nanos(!v.output_high));
    lemma_phase_lasts(begun, deadline, quiet);
    lemma_phase_ends(begun.after_polls(quiet), last);
}

/// Once `Sleep` is shown and its on-phase runs, nothing changes any more: the
/// output stays on and is never toggled, however many polls follow, until
/// another state is asked for.
pub proof fn lemma_sleep_is_steady(v: IndicatorView, polls: Seq<Poll>)
    requires
        v.wf(),
        v.running,
        v.register == SafetyState::Sleep,
        v.task.next_trigger is None,
    ensures
        v.output_high,
        v.after_polls(polls) == v,
        v.toggle_count(polls) == 0,
    decreases polls.len(),
{
    if polls.len() > 0 {
        lemma_sleep_is_steady(v, polls.drop_last());
    }
}

/// How many toggles can still follow once `Sleep` is shown: none while its
/// on-phase runs, one to end an off-phase, two to end an on-phase of another
/// pattern.
pub open spec fn toggles_before_rest(v: IndicatorView) -> nat {
    if v.task.next_trigger is None {
        0
    } else if v.output_high {
        2
    } else {
        1
    }
}

/// Once `Sleep` has been taken over, the output comes to rest: whatever polls
/// follow, it is toggled at most twice more, and only to end the phase that
/// was running.
pub proof fn lemma_sleep_settles(v: IndicatorView, polls: Seq<Poll>)
    requires
        v.wf(),
        v.running,
        v.register == SafetyState::Sleep,
        v.task.pattern == SafetyState::Sleep,
    ensures
        v.toggle_count(polls) + toggles_before_rest(v.after_polls(polls)) <= toggles_before_rest(v),
        v.toggle_count(polls) <= 2,
        v.after_polls(polls).task.pattern == SafetyState::Sleep,
        v.after_polls(polls).register == SafetyState::Sleep,
        v.after_polls(polls).running,
        v.after_polls(polls).wf(),
    decreases polls.len(),
{
    if polls.len() > 0 {
        lemma_sleep_settles(v, polls.drop_last());
    }
}

/// A scheduler is steady in `Sleep` as soon as it is made.
pub proof fn lemma_starts_in_sleep(polls: Seq<Poll>)
    ensures
        IndicatorView::start().wf(),
        IndicatorView::start().output_high,
        IndicatorView::start().after_polls(polls) == IndicatorView::start(),
        IndicatorView::start().toggle_count(polls) == 0,
{
    lemma_sleep_is_steady(IndicatorView::start(), polls);
}

/// How `Sleep` is entered from a blinking pattern. The running phase is left
/// to end. If it was an off-phase, the toggle that ends it turns the output on
/// for good. If it was an on-phase, the output goes off at that toggle, for an
/// off-phase of no length, and the next poll that reaches it turns it on for
/// good.
pub proof fn lemma_sleep_is_entered(v: IndicatorView, first: Poll, second: Poll)
    requires
        v.wf(),
        v.running,
        v.register == SafetyState::Sleep,
        first.state_free,
        first.output_free,
        due(v.task.next_trigger, first.now),
        second.now > first.now,
        second.output_free,
    ensures
        !v.output_high ==> v.after_poll(first).output_high,
        !v.output_high ==> v.after_poll(first).task == BlinkTask::start(),
        v.output_high ==> !v.after_poll(first).output_high,
        v.output_high ==> v.after_poll(first).task.next_trigger == Some(first.now),
        v.output_high ==> v.after_poll(first).after_poll(second).output_high,
        v.output_high ==> v.after_poll(first).after_poll(second).task == BlinkTask::start(),
{
}

/// A new state is taken over by the first poll that reads the register,
/// whenever that is.
pub proof fn lemma_change_is_seen(v: IndicatorView, state: SafetyState, poll: Poll)
    requires
        v.wf(),
        v.running,
        poll.state_free,
    ensures
        v.after_set(state).register == state,
        v.after_set(state).after_poll(poll).task.pattern == state,
        !poll.output_free ==> v.after_set(state).after_poll(poll).output_high == v.output_high,
{
}

/// A new state asked for in the middle of a phase does not cut that phase
/// short. Through all polls that come no later than the deadline, or cannot
/// reach the output, the output keeps its level and the deadline stays. The
/// first poll after the deadline that reaches both the register and the output
/// toggles the output and starts the next phase with the length that the new
/// pattern gives to the new level.
pub proof fn lemma_change_waits_for_toggle(
    v: IndicatorView,
    deadline: u64,
    state: SafetyState,
    quiet: Seq<Poll>,
    last: Poll,
)
    requires
        v.wf(),
        v.running,
        v.task.next_trigger == Some(deadline),
        forall|i: int| 0 <= i < quiet.len() ==> leaves_output(#[trigger] quiet[i], deadline as int),
        last.now > deadline,
        last.state_free,
        last.output_free,
    ensures
        v.after_set(state).after_polls(quiet).output_high == v.output_high,
        v.after_set(state).after_polls(quiet).task.next_trigger == Some(deadline),
        v.after_set(state).toggle_count(quiet) == 0,
        v.after_set(state).after_polls(quiet).toggles(last),
        v.after_set(state).after_polls(quiet).after_poll(last).output_high == !v.output_high,
        v.after_set(state).after_polls(quiet).after_poll(last).task.pattern == state,
        v.after_set(state).after_polls(quiet).after_poll(last).task.next_trigger == deadline_after(
            last.now,
            state.blink_pattern().half_period(!v.output_high),
        ),
{
    let changed = v.after_set(state);
    lemma_phase_lasts(changed, deadline, quiet);
    lemma_phase_ends(changed.after_polls(quiet), last);
}

/// The on-phase of `Sleep` has no end to wait for. When another state is asked
/// for while it runs, the first poll that reads the register takes the state
/// over, leaves the output on, and starts the on-phase of the new pattern at
/// the time of that poll.
pub proof fn lemma_sleep_is_left(v: IndicatorView, state: SafetyState, poll: Poll)
    requires
        v.wf(),
        v.running,
        v.task.next_trigger is None,
        state != SafetyState::Sleep,
        poll.state_free,
    ensures
        !v.after_set(state).toggles(poll),
        v.after_set(state).after_poll(poll).output_high,
        v.after_set(state).after_poll(poll).task.pattern == state,
        v.after_set(state).after_poll(poll).task.next_trigger == deadline_after(
            poll.now,
            state.blink_pattern().on,
        ),
        v.after_set(state).after_poll(poll).task.next_trigger is Some,
{
}

/// Taking the scheduler down is final, from whatever it was doing: the output
/// stands at the level named and no later poll moves it, and a state asked for
/// afterwards is refused.
pub proof fn lemma_teardown_is_final(
    v: IndicatorView,
    safe_high: bool,
    polls: Seq<Poll>,
    state: SafetyState,
)
    ensures
        v.after_teardown(safe_high).wf(),
        v.after_teardown(safe_high).output_high == safe_high,
        v.after_teardown(safe_high).after_polls(polls) == v.after_teardown(safe_high),
        v.after_teardown(safe_high).toggle_count(polls) == 0,
        v.after_teardown(safe_high).after_set(state) == v.after_teardown(safe_high),
    decreases polls.len(),
{
    if polls.len() > 0 {
        lemma_teardown_is_final(v, safe_high, polls.drop_last(), state);
    }
}

} // verus!
