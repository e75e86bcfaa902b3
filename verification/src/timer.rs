//! Repeating timers counted in nanoseconds.

use bevy::time::{Timer, TimerMode};
use std::time::Duration;
use vstd::arithmetic::div_mod::{
    lemma_add_mod_noop, lemma_fundamental_div_mod, lemma_fundamental_div_mod_converse,
    lemma_mod_bound, lemma_mod_twice, lemma_small_mod,
};
use vstd::prelude::*;

verus! {

/// Nanoseconds in one second.
pub const NANOS_PER_SECOND: u64 = 1_000_000_000;

/// Where a repeating timer of the given `duration` stands once `total`
/// nanoseconds have accumulated on it: the remainder modulo the duration, and
/// zero for a timer without duration.
pub open spec fn wrapped(duration: u64, total: int) -> int {
    if total < duration {
        total
    } else if duration == 0 {
        0
    } else {
        total % (duration as int)
    }
}

/// Advances a repeating `bevy::time::Timer` of the given duration, which
/// already holds `elapsed`, by `delta` (`Timer::new`, `Timer::set_elapsed`,
/// `Timer::tick`), and reads back `Timer::finished` and `Timer::elapsed`. All
/// three arguments and the second result are nanoseconds.
///
/// Trusted: the timer reports `finished` exactly when the accumulated time
/// reaches its duration, and a repeating timer then keeps the remainder of the
/// accumulated time modulo the duration (zero when the duration is zero).
#[verifier::external_body]
fn tick_repeating(duration: u64, elapsed: u64, delta: u64) -> (r: (bool, u64))
    ensures
        r.0 == (elapsed + delta >= duration),
        r.1 == wrapped(duration, elapsed + delta),
{
    let mut timer = Timer::new(Duration::from_nanos(duration), TimerMode::Repeating);
    timer.set_elapsed(Duration::from_nanos(elapsed));
    timer.tick(Duration::from_nanos(delta));
    (timer.finished(), timer.elapsed().as_nanos() as u64)
}

/// A repeating timer: it accumulates the time it is ticked with and fires on
/// every tick that reaches its duration, keeping the surplus for the next
/// round.
#[derive(Clone, Copy, Debug, PartialEq, Eq, Structural)]
pub struct RepeatingTimer {
    /// Length of one round, in nanoseconds.
    pub duration: u64,
    /// Time accumulated in the current round, in nanoseconds.
    pub elapsed: u64,
}

impl RepeatingTimer {
    /// Whether a tick by `delta` reaches the duration.
    pub open spec fn fires(self, delta: u64) -> bool {
        self.elapsed + delta >= self.duration
    }

    /// The timer after a tick by `delta`.
    pub open spec fn after(self, delta: u64) -> RepeatingTimer {
        RepeatingTimer {
            duration: self.duration,
            elapsed: wrapped(self.duration, self.elapsed + delta) as u64,
        }
    }

    /// The timer after one tick for each of `deltas`, in order.
    pub open spec fn after_ticks(self, deltas: Seq<u64>) -> RepeatingTimer
        decreases deltas.len(),
    {
        if deltas.len() == 0 {
            self
        } else {
            self.after_ticks(deltas.drop_last()).after(deltas.last())
        }
    }

    /// How many of the ticks by `deltas` the timer fires on.
    pub open spec fn firings(self, deltas: Seq<u64>) -> nat
        decreases deltas.len(),
    {
        if deltas.len() == 0 {
            0
        } else {
            self.firings(deltas.drop_last()) + if self.after_ticks(deltas.drop_last()).fires(
                deltas.last(),
            ) {
                1nat
            } else {
                0nat
            }
        }
    }

    /// A timer of the given duration with nothing elapsed.
    pub fn new(duration: u64) -> (timer: RepeatingTimer)
        ensures
            timer.duration == duration,
            timer.elapsed == 0,
    {
        RepeatingTimer { duration, elapsed: 0 }
    }

    /// A timer whose duration is a whole number of seconds.
    pub fn from_secs(secs: u32) -> (timer: RepeatingTimer)
        ensures
            timer.duration == secs * NANOS_PER_SECOND,
            timer.elapsed == 0,
    {
        let secs: u64 = secs as u64;
        RepeatingTimer::new(secs * NANOS_PER_SECOND)
    }

    /// Advances the timer by `delta` nanoseconds and tells whether it fired.
    /// Ticking with zero changes nothing on a timer that holds less than its
    /// duration.
    pub fn tick(&mut self, delta: u64) -> (fired: bool)
        ensures
            fired == old(self).fires(delta),
            *final(self) == old(self).after(delta),
    {
        let (fired, elapsed) = tick_repeating(self.duration, self.elapsed, delta);
        self.elapsed = elapsed;
        fired
    }
}

/// Sum of `deltas`.
pub open spec fn total(deltas: Seq<u64>) -> nat
    decreases deltas.len(),
{
    if deltas.len() == 0 {
        0
    } else {
        total(deltas.drop_last()) + deltas.last() as nat
    }
}

/// A tick by zero leaves a timer that holds less than its duration as it is,
/// and the timer does not fire on it.
pub proof fn lemma_zero_tick_is_idle(timer: RepeatingTimer)
    requires
        timer.elapsed < timer.duration,
    ensures
        !timer.fires(0),
        timer.after(0) == timer,
{
}

/// A timer always holds the time it was given modulo its duration, however
/// that time was cut into ticks.
pub proof fn lemma_timer_keeps_time(timer: RepeatingTimer, deltas: Seq<u64>)
    requires
        timer.elapsed < timer.duration,
    ensures
        timer.after_ticks(deltas).duration == timer.duration,
        timer.after_ticks(deltas).elapsed as int == (timer.elapsed + total(deltas)) % (timer.duration
            as int),
    decreases deltas.len(),
{
    let duration = timer.duration as int;
    if deltas.len() == 0 {
        lemma_small_mod(timer.elapsed as nat, timer.duration as nat);
    } else {
        lemma_timer_keeps_time(timer, deltas.drop_last());
        let before = timer.elapsed + total(deltas.drop_last());
        let sum = before % duration + deltas.last();
        lemma_add_mod_noop(before % duration, deltas.last() as int, duration);
        lemma_add_mod_noop(before, deltas.last() as int, duration);
        lemma_mod_twice(before, duration);
        if sum < duration {
            lemma_small_mod(sum as nat, duration as nat);
        }
    }
}

/// A timer that is never ticked by more than its duration fires once for
/// every full duration of the time it was given.
pub proof fn lemma_timer_fires_once_per_round(timer: RepeatingTimer, deltas: Seq<u64>)
    requires
        timer.elapsed < timer.duration,
        forall|i: int| 0 <= i < deltas.len() ==> deltas[i] <= timer.duration,
    ensures
        timer.firings(deltas) == (timer.elapsed + total(deltas)) / (timer.duration as int),
    decreases deltas.len(),
{
    let duration = timer.duration as int;
    if deltas.len() == 0 {
        lemma_fundamental_div_mod_converse(timer.elapsed as int, duration, 0, timer.elapsed as int);
    } else {
        lemma_timer_fires_once_per_round(timer, deltas.drop_last());
        lemma_timer_keeps_time(timer, deltas.drop_last());
        let before = timer.elapsed + total(deltas.drop_last());
        let rounds = before / duration;
        let held = before % duration;
        lemma_fundamental_div_mod(before, duration);
        lemma_mod_bound(before, duration);
        let sum = held + deltas.last();
        assert(duration * rounds == rounds * duration) by (nonlinear_arith);
        if sum < duration {
            lemma_fundamental_div_mod_converse(before + deltas.last(), duration, rounds, sum);
        } else {
            assert((rounds + 1) * duration == rounds * duration + duration) by (nonlinear_arith);
            lemma_fundamental_div_mod_converse(
                before + deltas.last(),
                duration,
                rounds + 1,
                sum - duration,
            );
        }
    }
}

} // verus!
