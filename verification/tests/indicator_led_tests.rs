use indra::indicator_led::{
    schedule, BlinkPattern, BlinkTask, HalfPeriod, IndicatorLED, SafetyState, SetError,
};

const SECOND: u64 = 1_000_000_000;
const MILLI: u64 = 1_000_000;

/// Polls every millisecond from `from` up to `until`, with everything in reach,
/// and gives the times at which the output was toggled, with the new level.
fn watch(led: &mut IndicatorLED, from: u64, until: u64) -> Vec<(u64, bool)> {
    let mut seen = Vec::new();
    let mut now = from;
    while now <= until {
        if let Some(level) = led.poll(now, true, true) {
            assert_eq!(led.is_high(), level);
            seen.push((now, level));
        }
        now += MILLI;
    }
    seen
}

#[test]
fn default_state_is_sleep() {
    assert_eq!(SafetyState::default(), SafetyState::Sleep);
}

#[test]
fn sleep_pattern_is_on_without_end() {
    assert_eq!(
        SafetyState::Sleep.pattern(),
        BlinkPattern { on: HalfPeriod::Unbounded, off: HalfPeriod::Nanos(0) }
    );
}

#[test]
fn safe_pattern_is_one_second_on_two_off() {
    assert_eq!(
        SafetyState::Safe.pattern(),
        BlinkPattern { on: HalfPeriod::Nanos(1_000_000_000), off: HalfPeriod::Nanos(2_000_000_000) }
    );
}

#[test]
fn unsafe_pattern_is_half_a_second_each() {
    assert_eq!(
        SafetyState::Unsafe.pattern(),
        BlinkPattern { on: HalfPeriod::Nanos(500_000_000), off: HalfPeriod::Nanos(500_000_000) }
    );
}

#[test]
fn state_converts_into_its_pattern() {
    for state in [SafetyState::Sleep, SafetyState::Safe, SafetyState::Unsafe] {
        let pattern: BlinkPattern = state.into();
        assert_eq!(pattern, state.pattern());
        assert_eq!(BlinkPattern::from(state), state.pattern());
    }
    let pattern: BlinkPattern = SafetyState::Unsafe.into();
    assert_eq!(pattern.on, HalfPeriod::Nanos(500_000_000));
}

#[test]
fn phase_picks_the_length_for_the_level() {
    let pattern = SafetyState::Safe.pattern();
    assert_eq!(pattern.phase(true), HalfPeriod::Nanos(SECOND));
    assert_eq!(pattern.phase(false), HalfPeriod::Nanos(2 * SECOND));
    assert_eq!(SafetyState::Sleep.pattern().phase(true), HalfPeriod::Unbounded);
    assert_eq!(SafetyState::Sleep.pattern().phase(false), HalfPeriod::Nanos(0));
}

#[test]
fn schedule_adds_the_length() {
    assert_eq!(schedule(0, HalfPeriod::Nanos(0)), Some(0));
    assert_eq!(schedule(7, HalfPeriod::Nanos(SECOND)), Some(1_000_000_007));
    assert_eq!(schedule(u64::MAX - 5, HalfPeriod::Nanos(5)), Some(u64::MAX));
}

#[test]
fn schedule_beyond_the_clock_is_the_last_instant() {
    assert_eq!(schedule(u64::MAX - 5, HalfPeriod::Nanos(6)), Some(u64::MAX));
    assert_eq!(schedule(u64::MAX, HalfPeriod::Nanos(u64::MAX)), Some(u64::MAX));
}

#[test]
fn schedule_of_a_phase_without_end_is_none() {
    assert_eq!(schedule(0, HalfPeriod::Unbounded), None);
    assert_eq!(schedule(u64::MAX, HalfPeriod::Unbounded), None);
}

#[test]
fn task_starts_in_sleep_with_nothing_scheduled() {
    assert_eq!(BlinkTask::new(), BlinkTask { pattern: SafetyState::Sleep, next_trigger: None });
}

#[test]
fn task_takes_over_a_new_state_and_keeps_the_deadline() {
    let mut task = BlinkTask { pattern: SafetyState::Safe, next_trigger: Some(500) };
    assert_eq!(task.poll(100, Some(SafetyState::Unsafe), Some(true)), None);
    assert_eq!(task, BlinkTask { pattern: SafetyState::Unsafe, next_trigger: Some(500) });
    assert_eq!(task.poll(500, Some(SafetyState::Sleep), Some(true)), None);
    assert_eq!(task, BlinkTask { pattern: SafetyState::Sleep, next_trigger: Some(500) });
}

#[test]
fn task_leaves_sleep_with_an_on_phase_from_now() {
    let mut task = BlinkTask::new();
    assert_eq!(task.poll(40, Some(SafetyState::Unsafe), Some(true)), None);
    assert_eq!(task, BlinkTask { pattern: SafetyState::Unsafe, next_trigger: Some(500_000_040) });
    let mut task = BlinkTask::new();
    assert_eq!(task.poll(40, Some(SafetyState::Safe), None), None);
    assert_eq!(task, BlinkTask { pattern: SafetyState::Safe, next_trigger: Some(1_000_000_040) });
}

#[test]
fn task_ignores_a_busy_register() {
    let mut task = BlinkTask { pattern: SafetyState::Safe, next_trigger: Some(500) };
    assert_eq!(task.poll(100, None, Some(true)), None);
    assert_eq!(task, BlinkTask { pattern: SafetyState::Safe, next_trigger: Some(500) });
    let mut task = BlinkTask::new();
    assert_eq!(task.poll(100, None, Some(true)), None);
    assert_eq!(task, BlinkTask::new());
}

#[test]
fn task_toggles_only_after_the_deadline() {
    let mut task = BlinkTask { pattern: SafetyState::Safe, next_trigger: Some(500) };
    assert_eq!(task.poll(499, None, Some(true)), None);
    assert_eq!(task.poll(500, None, Some(true)), None);
    assert_eq!(task.next_trigger, Some(500));
    assert_eq!(task.poll(501, None, Some(true)), Some(false));
    assert_eq!(task.next_trigger, Some(2_000_000_501));
}

#[test]
fn task_toggles_to_the_opposite_of_the_level_read() {
    let mut task = BlinkTask { pattern: SafetyState::Safe, next_trigger: Some(500) };
    assert_eq!(task.poll(600, None, Some(false)), Some(true));
    assert_eq!(task.next_trigger, Some(1_000_000_600));
    let mut task = BlinkTask { pattern: SafetyState::Unsafe, next_trigger: Some(500) };
    assert_eq!(task.poll(600, None, Some(true)), Some(false));
    assert_eq!(task.next_trigger, Some(500_000_600));
}

#[test]
fn task_waits_for_a_busy_output() {
    let mut task = BlinkTask { pattern: SafetyState::Safe, next_trigger: Some(500) };
    assert_eq!(task.poll(600, None, None), None);
    assert_eq!(task.poll(700, Some(SafetyState::Safe), None), None);
    assert_eq!(task.next_trigger, Some(500));
    assert_eq!(task.poll(800, None, Some(true)), Some(false));
    assert_eq!(task.next_trigger, Some(2_000_000_800));
}

#[test]
fn task_times_the_next_phase_by_the_state_just_taken_over() {
    let mut task = BlinkTask { pattern: SafetyState::Safe, next_trigger: Some(500) };
    assert_eq!(task.poll(600, Some(SafetyState::Unsafe), Some(true)), Some(false));
    assert_eq!(task, BlinkTask { pattern: SafetyState::Unsafe, next_trigger: Some(500_000_600) });
}

#[test]
fn task_enters_sleep_through_an_off_phase_of_no_length() {
    let mut task = BlinkTask { pattern: SafetyState::Safe, next_trigger: Some(500) };
    assert_eq!(task.poll(600, Some(SafetyState::Sleep), Some(true)), Some(false));
    assert_eq!(task.next_trigger, Some(600));
    assert_eq!(task.poll(600, None, Some(false)), None);
    assert_eq!(task.poll(601, None, Some(false)), Some(true));
    assert_eq!(task, BlinkTask::new());
}

#[test]
fn task_at_the_end_of_the_clock_schedules_the_last_instant() {
    let mut task = BlinkTask { pattern: SafetyState::Safe, next_trigger: Some(5) };
    assert_eq!(task.poll(u64::MAX, None, Some(true)), Some(false));
    assert_eq!(task.next_trigger, Some(u64::MAX));
    assert_eq!(task.poll(u64::MAX, None, Some(false)), None);
}

#[test]
fn scheduler_starts_on_in_sleep() {
    let led = IndicatorLED::new();
    assert!(led.is_high());
    assert!(led.is_running());
    assert_eq!(led.state(), SafetyState::Sleep);
    assert_eq!(led.task(), BlinkTask::new());
}

#[test]
fn set_replaces_the_register_and_nothing_else() {
    let mut led = IndicatorLED::new();
    assert_eq!(led.set(SafetyState::Unsafe), Ok(()));
    assert_eq!(led.state(), SafetyState::Unsafe);
    assert_eq!(led.task(), BlinkTask::new());
    assert!(led.is_high());
    assert!(led.is_running());
    assert_eq!(led.set(SafetyState::Safe), Ok(()));
    assert_eq!(led.state(), SafetyState::Safe);
}

#[test]
fn set_after_teardown_is_refused() {
    let mut led = IndicatorLED::new();
    led.set(SafetyState::Safe).unwrap();
    led.teardown(false);
    assert_eq!(led.set(SafetyState::Unsafe), Err(SetError::Stopped));
    assert_eq!(led.state(), SafetyState::Safe);
}

#[test]
fn sleep_stays_on_without_a_toggle() {
    let mut led = IndicatorLED::new();
    assert_eq!(watch(&mut led, 0, 30 * SECOND), Vec::new());
    assert!(led.is_high());
    led.set(SafetyState::Sleep).unwrap();
    assert_eq!(watch(&mut led, 30 * SECOND, 60 * SECOND), Vec::new());
    assert!(led.is_high());
    assert_eq!(led.poll(u64::MAX, true, true), None);
    assert!(led.is_high());
}

#[test]
fn safe_blinks_one_second_on_two_seconds_off() {
    let mut led = IndicatorLED::new();
    led.set(SafetyState::Safe).unwrap();
    let seen = watch(&mut led, 0, 10 * SECOND);
    assert_eq!(
        seen,
        vec![
            (SECOND + MILLI, false),
            (3 * SECOND + 2 * MILLI, true),
            (4 * SECOND + 3 * MILLI, false),
            (6 * SECOND + 4 * MILLI, true),
            (7 * SECOND + 5 * MILLI, false),
            (9 * SECOND + 6 * MILLI, true),
        ]
    );
    for pair in seen.windows(2) {
        let length = pair[1].0 - pair[0].0;
        let nominal = if pair[0].1 { SECOND } else { 2 * SECOND };
        assert!(length > nominal);
        assert!(length <= nominal + MILLI);
    }
}

#[test]
fn unsafe_blinks_half_a_second_each() {
    let mut led = IndicatorLED::new();
    led.set(SafetyState::Unsafe).unwrap();
    let seen = watch(&mut led, 0, 2 * SECOND);
    assert_eq!(
        seen,
        vec![
            (500 * MILLI + MILLI, false),
            (1_000 * MILLI + 2 * MILLI, true),
            (1_500 * MILLI + 3 * MILLI, false),
        ]
    );
}

#[test]
fn change_in_the_middle_of_a_phase_waits_for_the_toggle() {
    let mut led = IndicatorLED::new();
    led.set(SafetyState::Safe).unwrap();
    assert_eq!(watch(&mut led, 0, 2 * SECOND), vec![(SECOND + MILLI, false)]);
    // The off-phase of Safe runs until 3 s + 1 ms.
    led.set(SafetyState::Unsafe).unwrap();
    let seen = watch(&mut led, 2 * SECOND + MILLI, 5 * SECOND);
    assert_eq!(
        seen,
        vec![
            (3 * SECOND + 2 * MILLI, true),
            (3 * SECOND + 503 * MILLI, false),
            (4 * SECOND + 4 * MILLI, true),
            (4 * SECOND + 505 * MILLI, false),
        ]
    );
    assert_eq!(led.task().pattern, SafetyState::Unsafe);
}

#[test]
fn change_to_sleep_lets_the_phase_end_and_then_stays_on() {
    let mut led = IndicatorLED::new();
    led.set(SafetyState::Safe).unwrap();
    assert_eq!(watch(&mut led, 0, 2 * SECOND), vec![(SECOND + MILLI, false)]);
    led.set(SafetyState::Sleep).unwrap();
    let seen = watch(&mut led, 2 * SECOND + MILLI, 60 * SECOND);
    assert_eq!(seen, vec![(3 * SECOND + 2 * MILLI, true)]);
    assert!(led.is_high());
    assert_eq!(led.task(), BlinkTask::new());
}

#[test]
fn change_to_sleep_in_an_on_phase_goes_off_for_one_poll() {
    let mut led = IndicatorLED::new();
    led.set(SafetyState::Safe).unwrap();
    assert_eq!(watch(&mut led, 0, 500 * MILLI), Vec::new());
    led.set(SafetyState::Sleep).unwrap();
    let seen = watch(&mut led, 501 * MILLI, 60 * SECOND);
    assert_eq!(seen, vec![(SECOND + MILLI, false), (SECOND + 2 * MILLI, true)]);
    assert!(led.is_high());
    assert_eq!(led.task(), BlinkTask::new());
}

#[test]
fn leaving_sleep_starts_the_on_phase_at_the_poll_that_reads_the_register() {
    let mut led = IndicatorLED::new();
    assert_eq!(watch(&mut led, 0, 5 * SECOND), Vec::new());
    led.set(SafetyState::Unsafe).unwrap();
    assert_eq!(led.poll(6 * SECOND, false, true), None);
    assert_eq!(led.task(), BlinkTask::new());
    assert_eq!(led.poll(7 * SECOND, true, true), None);
    assert!(led.is_high());
    assert_eq!(
        led.task(),
        BlinkTask { pattern: SafetyState::Unsafe, next_trigger: Some(7 * SECOND + 500 * MILLI) }
    );
    assert_eq!(led.poll(7 * SECOND + 500 * MILLI, true, true), None);
    assert_eq!(led.poll(7 * SECOND + 500 * MILLI + 1, true, true), Some(false));
    assert!(!led.is_high());
}

#[test]
fn busy_register_delays_the_change_only() {
    let mut led = IndicatorLED::new();
    led.set(SafetyState::Safe).unwrap();
    assert_eq!(led.poll(0, true, true), None);
    led.set(SafetyState::Unsafe).unwrap();
    assert_eq!(led.poll(SECOND + 1, false, true), Some(false));
    assert_eq!(
        led.task(),
        BlinkTask { pattern: SafetyState::Safe, next_trigger: Some(3 * SECOND + 1) }
    );
    assert_eq!(led.poll(SECOND + 2, true, true), None);
    assert_eq!(
        led.task(),
        BlinkTask { pattern: SafetyState::Unsafe, next_trigger: Some(3 * SECOND + 1) }
    );
}

#[test]
fn busy_output_delays_the_toggle_only() {
    let mut led = IndicatorLED::new();
    led.set(SafetyState::Safe).unwrap();
    assert_eq!(led.poll(0, true, true), None);
    led.set(SafetyState::Unsafe).unwrap();
    assert_eq!(led.poll(SECOND + 1, true, false), None);
    assert!(led.is_high());
    assert_eq!(
        led.task(),
        BlinkTask { pattern: SafetyState::Unsafe, next_trigger: Some(SECOND) }
    );
    assert_eq!(led.poll(SECOND + 2, false, false), None);
    assert_eq!(led.poll(SECOND + 3, false, true), Some(false));
    assert!(!led.is_high());
    assert_eq!(led.task().next_trigger, Some(SECOND + 3 + 500 * MILLI));
}

#[test]
fn teardown_leaves_the_output_at_the_level_named() {
    let mut led = IndicatorLED::new();
    led.teardown(false);
    assert!(!led.is_high());
    assert!(!led.is_running());
    let mut led = IndicatorLED::new();
    led.set(SafetyState::Unsafe).unwrap();
    watch(&mut led, 0, 600 * MILLI);
    assert!(!led.is_high());
    led.teardown(true);
    assert!(led.is_high());
    assert!(!led.is_running());
}

#[test]
fn nothing_moves_after_teardown() {
    let mut led = IndicatorLED::new();
    led.set(SafetyState::Unsafe).unwrap();
    watch(&mut led, 0, 700 * MILLI);
    let task = led.task();
    led.teardown(false);
    assert_eq!(watch(&mut led, 700 * MILLI, 10 * SECOND), Vec::new());
    assert!(!led.is_high());
    assert_eq!(led.task(), task);
    assert_eq!(led.poll(u64::MAX, true, true), None);
    led.teardown(true);
    assert!(led.is_high());
    assert_eq!(watch(&mut led, 10 * SECOND, 20 * SECOND), Vec::new());
    assert!(led.is_high());
}
