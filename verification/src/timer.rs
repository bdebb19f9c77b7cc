use vstd::prelude::*;
use core::time::Duration;
use std::time::Instant;

verus! {

#[verifier::external_type_specification]
#[verifier::external_body]
pub struct ExInstant(std::time::Instant);

/// The duration of `ms` milliseconds, as `Duration::from_millis` builds it.
pub uninterp spec fn duration_of_millis(ms: u64) -> Duration;

/// `rand::Rng::gen_range` on the thread-local generator (`rand::thread_rng`)
/// over `low..high`: rand documents that the value lies in the range and that
/// an empty range panics, which `requires` rules out. Which value comes is chance.
#[verifier::external_body]
fn random_in_range(low: u64, high: u64) -> (r: u64)
    requires
        low < high,
    ensures
        low <= r < high,
{
    rand::Rng::gen_range(&mut rand::thread_rng(), low..high)
}

/// `Duration::from_millis`: the duration of `ms` milliseconds.
#[verifier::external_body]
fn duration_from_millis(ms: u64) -> (d: Duration)
    ensures
        d == duration_of_millis(ms),
{
    Duration::from_millis(ms)
}

/// `Instant::now`: the current moment of the monotonic clock. Nothing is
/// claimed of it: it depends on the time.
#[verifier::external_body]
fn instant_now() -> Instant {
    Instant::now()
}

/// `Instant::elapsed` on `start`: the time passed since then. Nothing is
/// claimed of it: it depends on the time.
#[verifier::external_body]
fn elapsed_since(start: &Instant) -> Duration {
    start.elapsed()
}

/// `Duration::as_millis`: the whole milliseconds in `d`. Of a duration that
/// `Duration::from_millis` built from `ms` milliseconds it gives `ms` back.
#[verifier::external_body]
fn duration_as_millis(d: Duration) -> (r: u128)
    ensures
        forall|ms: u64| d == duration_of_millis(ms) ==> r == ms,
{
    d.as_millis()
}

/// A timer that runs out after a duration drawn at random, in milliseconds,
/// from `lower_ceiling_ms..upper_ceiling_ms`, each time it is started.
pub struct RandomizedTimer {
    pub start_time: Instant,
    pub duration_ms: u64,
    pub lower_ceiling_ms: u64,
    pub upper_ceiling_ms: u64,
}

impl RandomizedTimer {
    /// A timer started now, with a duration drawn from `lower_ceiling_ms..upper_ceiling_ms`.
    pub fn new(lower_ceiling_ms: u64, upper_ceiling_ms: u64) -> (t: RandomizedTimer)
        requires
            lower_ceiling_ms < upper_ceiling_ms,
        ensures
            t.lower_ceiling_ms == lower_ceiling_ms,
            t.upper_ceiling_ms == upper_ceiling_ms,
            lower_ceiling_ms <= t.duration_ms < upper_ceiling_ms,
    {
        let timemillis = random_in_range(lower_ceiling_ms, upper_ceiling_ms);
        let start_time = instant_now();
        RandomizedTimer { start_time, duration_ms: timemillis, lower_ceiling_ms, upper_ceiling_ms }
    }

    /// Whether a timer that has been running for `elapsed_ms` milliseconds has run out:
    /// strictly more than its duration has passed.
    pub fn is_expired_after(&self, elapsed_ms: u128) -> (r: bool)
        ensures
            r == (elapsed_ms > self.duration_ms as u128),
    {
        if elapsed_ms > self.duration_ms as u128 {
            return true;
        } else {
            return false;
        }
    }

    /// Whether the timer has run out, by the clock now (see [`Self::is_expired_after`]).
    pub fn is_expired(&self) -> bool {
        let elapsed = duration_as_millis(elapsed_since(&self.start_time));
        self.is_expired_after(elapsed)
    }

    /// Starts the timer again, now, with a new duration drawn from its range.
    pub fn reset(&mut self)
        requires
            old(self).lower_ceiling_ms < old(self).upper_ceiling_ms,
        ensures
            final(self).lower_ceiling_ms == old(self).lower_ceiling_ms,
            final(self).upper_ceiling_ms == old(self).upper_ceiling_ms,
            final(self).lower_ceiling_ms <= final(self).duration_ms < final(self).upper_ceiling_ms,
    {
        let timemillis = random_in_range(self.lower_ceiling_ms, self.upper_ceiling_ms);
        self.start_time = instant_now();
        self.duration_ms = timemillis;
    }

    /// The timer's current duration.
    pub fn get_duration(&self) -> (d: Duration)
        ensures
            d == duration_of_millis(self.duration_ms),
    {
        duration_from_millis(self.duration_ms)
    }
}

/// A duration drawn at random, in milliseconds, from `lower_ceiling_ms..upper_ceiling_ms`.
pub fn get_randomized_duration(lower_ceiling_ms: u64, upper_ceiling_ms: u64) -> (d: Duration)
    requires
        lower_ceiling_ms < upper_ceiling_ms,
    ensures
        exists|ms: u64| lower_ceiling_ms <= ms < upper_ceiling_ms && d == duration_of_millis(ms),
{
    let timemillis = random_in_range(lower_ceiling_ms, upper_ceiling_ms);
    duration_from_millis(timemillis)
}

/// An election timeout drawn at random from 10 to 15 seconds (upper end excluded).
pub fn gen_rd_timeout() -> (d: Duration)
    ensures
        exists|ms: u64| 10000 <= ms < 15000 && d == duration_of_millis(ms),
{
    get_randomized_duration(10000, 15000)
}

} // verus!
