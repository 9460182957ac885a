use rust8::timers::{ChipTimers, TIMERS_TICK_RATE_NANOS};

#[test]
fn fresh_timers_are_zero() {
    let t = ChipTimers::new();

    assert_eq!(t.delay(), 0);
    assert_eq!(t.sound(), 0);
}

#[test]
fn first_tick_decrements_once() {
    let mut t = ChipTimers::new();
    t.set_delay(5);
    t.set_sound(3);

    t.tick_at(0);

    assert_eq!(t.delay(), 4);
    assert_eq!(t.sound(), 2);
}

#[test]
fn close_ticks_decrement_at_most_once() {
    let mut t = ChipTimers::new();
    t.set_delay(5);

    t.tick_at(1000);
    t.tick_at(1000 + TIMERS_TICK_RATE_NANOS - 1);

    assert_eq!(t.delay(), 4);
}

#[test]
fn elapsed_interval_decrements_again() {
    let mut t = ChipTimers::new();
    t.set_delay(5);

    t.tick_at(0);
    t.tick_at(TIMERS_TICK_RATE_NANOS);

    assert_eq!(t.delay(), 3);
}

#[test]
fn slow_ticks_catch_up_one_per_call() {
    let mut t = ChipTimers::new();
    t.set_delay(5);

    t.tick_at(0);
    // Five intervals pass, but a single call decrements only once more.
    t.tick_at(5 * TIMERS_TICK_RATE_NANOS);

    assert_eq!(t.delay(), 3);
}

#[test]
fn counters_floor_at_zero() {
    let mut t = ChipTimers::new();
    t.set_delay(1);

    t.tick_at(0);
    t.tick_at(TIMERS_TICK_RATE_NANOS);
    t.tick_at(2 * TIMERS_TICK_RATE_NANOS);

    assert_eq!(t.delay(), 0);
    assert_eq!(t.sound(), 0);
}

#[test]
fn timers_reset_forgets_reference() {
    let mut t = ChipTimers::new();
    t.set_delay(9);
    t.tick_at(0);

    t.reset();

    assert_eq!(t.delay(), 0);
    assert_eq!(t.sound(), 0);

    // The next tick behaves like the very first one again.
    t.set_delay(2);
    t.tick_at(7);
    assert_eq!(t.delay(), 1);
}

#[test]
fn wall_clock_tick_runs() {
    let mut t = ChipTimers::new();
    t.set_delay(10);

    t.tick();

    // The first wall-clock tick owes one decrement; later ones are gated.
    assert_eq!(t.delay(), 9);
    t.tick();
    assert!(t.delay() == 9 || t.delay() == 8);
}
