//! The delay and sound timers.
//!
//! Both counters sit at 8 bits and floor at zero. A decrement is owed at most
//! once per fixed 1/60 s interval of wall-clock time, however often the host
//! calls [`ChipTimers::tick`]: calling faster than 60 Hz must not
//! over-decrement, and calling slower catches up one decrement per call, not
//! several at once. The gating logic is pure arithmetic over a nanosecond
//! reading and is verified in [`ChipTimers::tick_at`]; only the reading of
//! the clock itself is trusted.

use vstd::prelude::*;

verus! {

/// Nanoseconds in one timer interval: a sixtieth of a second.
pub const TIMERS_TICK_RATE_NANOS: u64 = 1_000_000_000 / 60;

#[verifier::external_type_specification]
#[verifier::external_body]
pub struct ExInstant(std::time::Instant);

/// Relies on std::time::Instant::now for an opaque monotonic timestamp;
/// nothing is promised of it.
pub assume_specification[ std::time::Instant::now ]() -> std::time::Instant;

/// Relies on std::time::Instant::elapsed: the time since `earlier`, taken as
/// whole nanoseconds. Which value comes back depends on the clock alone, so
/// nothing is promised of it.
#[verifier::external_body]
fn nanos_since(earlier: &std::time::Instant) -> u64 {
    earlier.elapsed().as_nanos() as u64
}

/// The timer pair as the contracts see it: both counters, and the nanosecond
/// reading at which the last decrement was owed, if one happened yet.
pub ghost struct TimersModel {
    pub delay: u8,
    pub sound: u8,
    pub previous_tick: Option<u64>,
}

/// An 8-bit counter one step down, flooring at zero.
pub open spec fn sat_dec(v: u8) -> u8 {
    if v == 0 {
        0u8
    } else {
        (v - 1) as u8
    }
}

/// What one tick at reading `now` does to the timer pair `t`: the first tick
/// ever decrements and records `now`; after that a tick decrements only once
/// the recorded instant lies a full interval in the past, and then moves the
/// record forward by exactly one interval, so missed intervals are caught up
/// one call at a time.
pub open spec fn spec_tick_at(t: TimersModel, now: u64) -> TimersModel {
    match t.previous_tick {
        None => TimersModel {
            delay: sat_dec(t.delay),
            sound: sat_dec(t.sound),
            previous_tick: Some(now),
        },
        Some(p) => if now >= p + TIMERS_TICK_RATE_NANOS {
            TimersModel {
                delay: sat_dec(t.delay),
                sound: sat_dec(t.sound),
                previous_tick: Some((p + TIMERS_TICK_RATE_NANOS) as u64),
            }
        } else {
            t
        },
    }
}

/// The delay and sound timers with their clock reference.
#[derive(Debug)]
pub struct ChipTimers {
    /// The delay counter.
    pub delay: u8,
    /// The sound counter.
    pub sound: u8,
    previous_tick: Option<u64>,
    origin: Option<std::time::Instant>,
}

impl View for ChipTimers {
    type V = TimersModel;

    closed spec fn view(&self) -> TimersModel {
        TimersModel { delay: self.delay, sound: self.sound, previous_tick: self.previous_tick }
    }
}

impl Default for ChipTimers {
    /// The same pair `new` builds.
    fn default() -> (r: Self)
        ensures
            r@ == (TimersModel { delay: 0u8, sound: 0u8, previous_tick: None }),
    {
        Self::new()
    }
}

impl ChipTimers {
    /// A fresh pair: both counters zero, no decrement owed yet.
    pub fn new() -> (r: Self)
        ensures
            r@ == (TimersModel { delay: 0u8, sound: 0u8, previous_tick: None }),
    {
        ChipTimers { delay: 0, sound: 0, previous_tick: None, origin: None }
    }

    /// The delay counter's value.
    pub fn delay(&self) -> (r: u8)
        ensures
            r == self@.delay,
    {
        self.delay
    }

    /// The sound counter's value.
    pub fn sound(&self) -> (r: u8)
        ensures
            r == self@.sound,
    {
        self.sound
    }

    /// Loads the delay counter.
    pub fn set_delay(&mut self, v: u8)
        ensures
            final(self)@ == (TimersModel { delay: v, ..old(self)@ }),
    {
        self.delay = v;
    }

    /// Loads the sound counter.
    pub fn set_sound(&mut self, v: u8)
        ensures
            final(self)@ == (TimersModel { sound: v, ..old(self)@ }),
    {
        self.sound = v;
    }

    /// One gated decrement against the clock reading `now`, in nanoseconds on
    /// the same scale as the recorded reference.
    pub fn tick_at(&mut self, now: u64)
        ensures
            final(self)@ == spec_tick_at(old(self)@, now),
    {
        match self.previous_tick {
            None => {
                self.delay = self.delay.saturating_sub(1);
                self.sound = self.sound.saturating_sub(1);
                self.previous_tick = Some(now);
            },
            Some(p) => {
                if now >= p && now - p >= TIMERS_TICK_RATE_NANOS {
                    self.delay = self.delay.saturating_sub(1);
                    self.sound = self.sound.saturating_sub(1);
                    self.previous_tick = Some(p + TIMERS_TICK_RATE_NANOS);
                }
            },
        }
    }

    /// One gated decrement against the wall clock.
    pub fn tick(&mut self)
        ensures
            exists|now: u64| final(self)@ == spec_tick_at(old(self)@, now),
    {
        let now: u64 = match &self.origin {
            None => 0,
            Some(o) => nanos_since(o),
        };
        if self.origin.is_none() {
            self.origin = Some(std::time::Instant::now());
        }
        self.tick_at(now);
        proof {
            assert(self@ == spec_tick_at(old(self)@, now));
        }
    }

    /// Zeroes both counters and forgets the clock reference.
    pub fn reset(&mut self)
        ensures
            final(self)@ == (TimersModel { delay: 0u8, sound: 0u8, previous_tick: None }),
    {
        self.delay = 0;
        self.sound = 0;
        self.previous_tick = None;
        self.origin = None;
    }
}

/// Two ticks whose readings both fall before the second interval past the
/// recorded reference decrement each counter at most once in total, however
/// close together or far apart the two calls are. (From a reference that
/// already lies several intervals in the past, a second tick may instead
/// catch up one more missed decrement.)
pub proof fn lemma_tick_rate_limit(t: TimersModel, p: u64, n1: u64, n2: u64)
    requires
        t.previous_tick == Some(p),
        n2 < p + 2 * TIMERS_TICK_RATE_NANOS,
    ensures
        ({
            let t2 = spec_tick_at(spec_tick_at(t, n1), n2);
            &&& t2.delay <= t.delay
            &&& t2.delay >= t.delay - 1
            &&& t2.sound <= t.sound
            &&& t2.sound >= t.sound - 1
        }),
{
}

/// From a fresh pair of timers, the first tick decrements each counter once,
/// and a second tick less than one interval later does nothing more.
pub proof fn lemma_fresh_tick_pair(t: TimersModel, n1: u64, n2: u64)
    requires
        t.previous_tick is None,
        n2 < n1 + TIMERS_TICK_RATE_NANOS,
    ensures
        ({
            let t2 = spec_tick_at(spec_tick_at(t, n1), n2);
            &&& t2.delay == sat_dec(t.delay)
            &&& t2.sound == sat_dec(t.sound)
        }),
{
}

} // verus!
