//! A fire-once countdown, measured in nanoseconds.
//!
//! The arithmetic of a tick is done by `bevy::time::Timer`; this module keeps
//! the timer's state as plain numbers so that contracts can speak of it.

use bevy::time::{Timer, TimerMode};
use std::time::Duration;
use vstd::prelude::*;

verus! {

/// The state of a countdown that completes once and then stays completed.
#[derive(Clone, Copy, Debug, PartialEq, Eq)]
pub struct Countdown {
    /// The time after which the countdown completes, in nanoseconds.
    pub duration: u64,
    /// The time accumulated so far, in nanoseconds.
    pub elapsed: u64,
    /// Whether a tick has reached the duration.
    pub finished: bool,
}

impl Countdown {
    /// A countdown on which no time has passed.
    pub open spec fn started(duration: u64) -> Countdown {
        Countdown { duration, elapsed: 0, finished: false }
    }

    /// The countdown after `delta` more nanoseconds.
    ///
    /// A completed countdown does not move. Otherwise the time is added, and
    /// the countdown completes, clamped at its duration, once the sum reaches
    /// the duration.
    pub open spec fn ticked(self, delta: nat) -> Countdown {
        if self.finished {
            self
        } else if self.elapsed + delta >= self.duration {
            Countdown { duration: self.duration, elapsed: self.duration, finished: true }
        } else {
            Countdown {
                duration: self.duration,
                elapsed: (self.elapsed + delta) as u64,
                finished: false,
            }
        }
    }

    /// Starts a countdown of `duration` nanoseconds.
    pub fn new(duration: u64) -> (countdown: Countdown)
        ensures
            countdown == Countdown::started(duration),
    {
        Countdown { duration, elapsed: 0, finished: false }
    }

    /// Advances the countdown by `delta` nanoseconds.
    pub fn tick(&mut self, delta: u64)
        ensures
            *final(self) == old(self).ticked(delta as nat),
    {
        if !self.finished {
            let (elapsed, finished) = timer_tick(self.duration, self.elapsed, delta);
            self.elapsed = elapsed;
            self.finished = finished;
        }
    }
}

/// Runs `bevy::time::Timer::tick` on a once-only, unpaused, unfinished timer
/// of the given duration and elapsed time, and reads the timer back.
///
/// The contract claims what the timer's source shows for that mode: the
/// stopwatch adds `delta` to the elapsed time; the timer is finished exactly
/// if the sum has reached the duration, and then the elapsed time is set to
/// the duration. All three values are nanoseconds, so the sum of two of them
/// is far below what a `Duration` can hold.
#[verifier::external_body]
fn timer_tick(duration: u64, elapsed: u64, delta: u64) -> (after: (u64, bool))
    ensures
        after.1 == (elapsed + delta >= duration),
        after.0 == (if elapsed + delta >= duration { duration as int } else { elapsed + delta }),
{
    let mut timer = Timer::new(Duration::from_nanos(duration), TimerMode::Once);
    timer.set_elapsed(Duration::from_nanos(elapsed));
    timer.tick(Duration::from_nanos(delta));
    (timer.elapsed().as_nanos() as u64, timer.finished())
}

/// Ticks add up: two ticks in a row leave the countdown where one tick of
/// their sum leaves it.
pub proof fn lemma_ticks_accumulate(countdown: Countdown, first: nat, second: nat)
    ensures
        countdown.ticked(first).ticked(second) == countdown.ticked(first + second),
{
}

} // verus!
