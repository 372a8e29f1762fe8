//! One tick of a repeating timer, taken from the engine's `Timer`. Nothing
//! here is proved: the contract repeats what `bevy` documents and does.
use bevy::time::{Timer, TimerMode};
use std::time::Duration;
use vstd::prelude::*;

verus! {

/// One tick of `bevy`'s `Timer`, with all times in microseconds. The body
/// makes a timer of the given interval in `TimerMode::Repeating`
/// (`Timer::new`), lets it have run for `elapsed` (`Timer::set_elapsed`),
/// ticks it by `delta` (`Timer::tick`), and hands back what
/// `Timer::elapsed` and `Timer::finished` then report.
///
/// The contract says what `Timer::tick` does to a running repeating timer:
/// it adds `delta` to the time run; the timer has finished if that reaches
/// the interval; and the whole intervals are then taken out of the time
/// run. `bevy` divides by the interval and counts the whole intervals in a
/// `u32`: the precondition leaves out an interval of zero and a count that
/// does not fit.
#[verifier::external_body]
pub(crate) fn tick_repeating(interval: u64, elapsed: u64, delta: u64) -> (after: (u64, bool))
    requires
        0 < interval,
        (elapsed + delta) / (interval as int) <= u32::MAX,
    ensures
        after.0 == (elapsed + delta) % (interval as int),
        after.1 == (elapsed + delta >= interval),
{
    let mut timer = Timer::new(Duration::from_micros(interval), TimerMode::Repeating);
    timer.set_elapsed(Duration::from_micros(elapsed));
    timer.tick(Duration::from_micros(delta));
    (timer.elapsed().as_micros() as u64, timer.finished())
}

} // verus!
