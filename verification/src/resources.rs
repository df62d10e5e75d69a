use vstd::prelude::*;
use bevy::time::{Timer, TimerMode};
use std::time::Duration;
use crate::utilities::Position;

verus! {

/// The arena: a rectangle with one corner at the origin, in sub-units.
#[derive(Clone, Copy, Debug, PartialEq, Eq, Structural)]
pub struct WindowDimensions {
    pub width: i64,
    pub height: i64,
}

impl WindowDimensions {
    /// Neither side is negative.
    pub open spec fn wf(self) -> bool {
        0 <= self.width && 0 <= self.height
    }

    /// An arena of the given sides, if neither is negative.
    pub fn new(width: i64, height: i64) -> (window: Option<WindowDimensions>)
        ensures
            window.is_some() == (0 <= width && 0 <= height),
            window.is_some() ==> window.unwrap() == (WindowDimensions { width, height }),
    {
        if width >= 0 && height >= 0 {
            Some(WindowDimensions { width, height })
        } else {
            None
        }
    }

    /// Whether `p` lies in the arena, borders included.
    pub open spec fn contains(self, p: Position) -> bool {
        0 <= p.x <= self.width && 0 <= p.y <= self.height
    }
}

/// `bevy::time::Timer`, taken as it is: nothing inside it is read here. What
/// the contracts need of a timer goes by the four names below.
#[verifier::external_type_specification]
#[verifier::external_body]
pub struct ExTimer(bevy::time::Timer);

/// What `Timer::elapsed` gives, in nanoseconds: the time that a timer has
/// counted since it last wrapped or was reset.
pub uninterp spec fn timer_elapsed(timer: Timer) -> nat;

/// What `Timer::duration` gives, in nanoseconds: the time after which a
/// timer fires.
pub uninterp spec fn timer_period(timer: Timer) -> nat;

/// What `Timer::finished` gives: whether a timer fired on its last tick.
pub uninterp spec fn timer_finished(timer: Timer) -> bool;

/// Whether `Timer::mode` gives `TimerMode::Repeating` and `Timer::paused`
/// gives false.
pub uninterp spec fn timer_repeats(timer: Timer) -> bool;

/// What a running, repeating timer has counted after a tick of `delta`
/// nanoseconds: it keeps the remainder when it reaches the period.
pub open spec fn elapsed_after_tick(elapsed: nat, period: nat, delta: nat) -> nat {
    if elapsed + delta < period {
        elapsed + delta
    } else if period == 0 {
        0
    } else {
        (elapsed + delta) % period
    }
}

/// `bevy::time::Timer::new`, with `TimerMode::Repeating` and a period given in
/// nanoseconds. The timer starts unpaused, with nothing counted and not
/// finished.
#[verifier::external_body]
fn repeating_timer(period: u64) -> (timer: Timer)
    ensures
        timer_elapsed(timer) == 0,
        timer_period(timer) == period,
        !timer_finished(timer),
        timer_repeats(timer),
{
    Timer::new(Duration::from_nanos(period), TimerMode::Repeating)
}

/// `bevy::time::Timer::tick`, with the step given in nanoseconds. A running,
/// repeating timer adds the step to what it has counted. It is finished
/// exactly if the sum reaches the period, and then keeps the remainder of the
/// sum by the period (zero for a period of zero).
#[verifier::external_body]
fn tick_timer(timer: &mut Timer, delta: u64)
    requires
        timer_repeats(*old(timer)),
        timer_elapsed(*old(timer)) <= timer_period(*old(timer)) <= u64::MAX,
    ensures
        timer_repeats(*final(timer)),
        timer_period(*final(timer)) == timer_period(*old(timer)),
        timer_finished(*final(timer)) == (timer_elapsed(*old(timer)) + delta >= timer_period(
            *old(timer),
        )),
        timer_elapsed(*final(timer)) == elapsed_after_tick(
            timer_elapsed(*old(timer)),
            timer_period(*old(timer)),
            delta as nat,
        ),
{
    timer.tick(Duration::from_nanos(delta));
}

/// `Timer::finished` reads the flag that the last tick or reset left.
pub assume_specification[ Timer::finished ](timer: &Timer) -> (finished: bool)
    ensures
        finished == timer_finished(*timer),
;

/// `Timer::reset` clears what was counted and the finished flag; period, mode
/// and pause stay.
pub assume_specification[ Timer::reset ](timer: &mut Timer)
    ensures
        timer_elapsed(*final(timer)) == 0,
        !timer_finished(*final(timer)),
        timer_period(*final(timer)) == timer_period(*old(timer)),
        timer_repeats(*final(timer)) == timer_repeats(*old(timer)),
;

/// The countdown to the next enemy.
pub struct EnemySpawnTimer(pub Timer);

impl EnemySpawnTimer {
    pub open spec fn elapsed(self) -> nat {
        timer_elapsed(self.0)
    }

    pub open spec fn period(self) -> nat {
        timer_period(self.0)
    }

    pub open spec fn finished(self) -> bool {
        timer_finished(self.0)
    }

    /// The timer repeats, is not paused, and has not counted past its period.
    pub open spec fn wf(self) -> bool {
        &&& timer_repeats(self.0)
        &&& self.elapsed() <= self.period() <= u64::MAX
    }

    /// A repeating countdown of `period` nanoseconds with nothing counted.
    pub fn new(period: u64) -> (timer: EnemySpawnTimer)
        ensures
            timer.wf(),
            timer.elapsed() == 0,
            timer.period() == period,
            !timer.finished(),
    {
        EnemySpawnTimer(repeating_timer(period))
    }

    /// Counts `delta` nanoseconds and says whether the countdown fired.
    pub fn tick(&mut self, delta: u64) -> (fired: bool)
        requires
            old(self).wf(),
        ensures
            final(self).wf(),
            final(self).period() == old(self).period(),
            final(self).elapsed() == elapsed_after_tick(
                old(self).elapsed(),
                old(self).period(),
                delta as nat,
            ),
            fired == (old(self).elapsed() + delta >= old(self).period()),
            final(self).finished() == fired,
    {
        tick_timer(&mut self.0, delta);
        proof {
            lemma_elapsed_after_tick_bound(old(self).elapsed(), old(self).period(), delta as nat);
        }
        self.0.finished()
    }
}

/// After a tick the count is within the period again.
pub proof fn lemma_elapsed_after_tick_bound(elapsed: nat, period: nat, delta: nat)
    ensures
        elapsed_after_tick(elapsed, period, delta) <= period,
{
    if elapsed + delta >= period && period != 0 {
        assert((elapsed + delta) % period < period) by (nonlinear_arith)
            requires
                period > 0,
        ;
    }
}

} // verus!
