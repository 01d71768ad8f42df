//! Timers kept as absolute timestamps on a shared timeline.
//! - Cheap: nothing to update per frame, a read compares with the timeline.
//! - Pausing belongs to the timeline, not to these timers.
//! - A long-running timeline is reset now and then; the timers that depend on it
//!   are shifted by the same amount and keep their readings.
use vstd::prelude::*;
use crate::base_lib::cores::design_patterns::DependCtx;
use crate::base_lib::cores::timers::tick_timer::TickTimer;
use crate::base_lib::cores::timers::tiny_timer::{TimerControl, TimerProgress, TimerView};
use crate::base_lib::cores::unify_types::time_type;

verus! {

/// The reference timeline of static timers; it is advanced by ticking its timer.
#[derive(Clone, Debug)]
pub struct StaticTimeline(pub TickTimer);

impl Default for StaticTimeline {
    fn default() -> (r: Self)
        ensures
            r.now() == 0,
            r.0.duration_v() == time_type::INFINITY,
    {
        Self::new()
    }
}

impl StaticTimeline {
    /// The current time.
    pub open spec fn now(&self) -> time_type::T {
        self.0.elapsed_v()
    }

    /// A timeline at time zero that never stops.
    pub fn new() -> (r: Self)
        ensures
            r.now() == 0,
            r.0.duration_v() == time_type::INFINITY,
    {
        StaticTimeline(TickTimer::new(time_type::INFINITY))
    }

    /// The current time.
    pub fn current_time(&self) -> (r: time_type::T)
        ensures
            r == self.now(),
    {
        self.0.elapsed(())
    }

    /// Resets the timeline to zero and returns the time it had reached, by which
    /// the dependent timers are then to be shifted.
    pub fn reset_timeline_and_get_diff(&mut self) -> (r: time_type::T)
        ensures
            r == old(self).now(),
            final(self).now() == 0,
            final(self).0.duration_v() == old(self).0.duration_v(),
    {
        let diff = self.current_time();
        self.0.reset(());
        proof {
            broadcast use TickTimer::lemma_parts;

        }
        diff
    }
}

/// A timer that ends at a timestamp of the timeline it is read against.
#[derive(Clone, Debug)]
pub struct StaticTimer {
    /// The length.
    duration: time_type::T,
    /// The end.
    end_at: time_type::T,
}

impl StaticTimer {
    /// The length.
    pub closed spec fn duration_v(&self) -> time_type::T {
        self.duration
    }

    /// The end.
    pub closed spec fn end_v(&self) -> time_type::T {
        self.end_at
    }

    /// The timer with these readings.
    pub closed spec fn from_parts(duration: time_type::T, end_at: time_type::T) -> Self {
        StaticTimer { duration, end_at }
    }

    /// A timer is its readings.
    pub broadcast proof fn lemma_parts(duration: time_type::T, end_at: time_type::T)
        ensures
            #[trigger] Self::from_parts(duration, end_at).duration_v() == duration,
            Self::from_parts(duration, end_at).end_v() == end_at,
    {
    }

    /// A timer of length `duration` starting now.
    pub fn new(timeline: &StaticTimeline, duration: time_type::T) -> (r: Self)
        ensures
            r.duration_v() == duration,
            r.end_v() == time_type::sat_add(timeline.now(), duration),
    {
        StaticTimer { duration, end_at: time_type::plus(timeline.current_time(), duration) }
    }

    /// A timer that never ends.
    pub fn inf() -> (r: Self)
        ensures
            r.duration_v() == time_type::INFINITY,
            r.end_v() == time_type::INFINITY,
    {
        StaticTimer { duration: time_type::INFINITY, end_at: time_type::INFINITY }
    }

    /// The timer after its timeline was reset from `diff` to zero.
    pub open spec fn shifted(&self, diff: time_type::T) -> Self {
        Self::from_parts(self.duration_v(), time_type::sat_sub(self.end_v(), diff))
    }

    /// Follows a reset of the timeline from `diff` to zero.
    pub fn fix_timeline_diff(&mut self, diff: time_type::T)
        ensures
            *final(self) == old(self).shifted(diff),
    {
        self.end_at = time_type::minus(self.end_at, diff);
    }
}

impl DependCtx for StaticTimer {
    type Ctx<'a> = &'a StaticTimeline;
}

impl TimerProgress for StaticTimer {
    open spec fn elapsed_at(&self, ctx: &StaticTimeline) -> time_type::T {
        time_type::sat_sub(self.duration_v(), self.remaining_at(ctx))
    }

    /// Time to the end, zero once it has passed.
    open spec fn remaining_at(&self, ctx: &StaticTimeline) -> time_type::T {
        time_type::sat_sub(self.end_v(), ctx.now())
    }

    open spec fn duration_at(&self, ctx: &StaticTimeline) -> time_type::T {
        self.duration_v()
    }

    fn elapsed(&self, ctx: &StaticTimeline) -> time_type::T {
        time_type::minus(self.duration(ctx), self.remaining(ctx))
    }

    fn remaining(&self, ctx: &StaticTimeline) -> time_type::T {
        time_type::minus(self.end_at, ctx.current_time())
    }

    fn duration(&self, ctx: &StaticTimeline) -> time_type::T {
        self.duration
    }
}

impl TimerView for StaticTimer {
    open spec fn completed_at(&self, ctx: &StaticTimeline) -> bool {
        ctx.now() >= self.end_v()
    }

    fn is_completed(&self, ctx: &StaticTimeline) -> bool {
        ctx.current_time() >= self.end_at
    }
}

impl TimerControl for StaticTimer {
    /// Starts again from the current time.
    open spec fn reset_at(&self, ctx: &StaticTimeline) -> Self {
        Self::from_parts(self.duration_v(), time_type::sat_add(ctx.now(), self.duration_v()))
    }

    /// Ends at the current time.
    open spec fn completed_now(&self, ctx: &StaticTimeline) -> Self {
        Self::from_parts(self.duration_v(), ctx.now())
    }

    fn reset(&mut self, ctx: &StaticTimeline) {
        self.end_at = time_type::plus(ctx.current_time(), self.duration);
    }

    fn complete(&mut self, ctx: &StaticTimeline) {
        self.end_at = ctx.current_time();
    }
}

/// Resetting a timeline and shifting a timer by the returned difference keeps the
/// timer's readings: elapsed, remaining, length and completion are unchanged.
pub proof fn law_shift_keeps_readings(timer: StaticTimer, before: StaticTimeline, after: StaticTimeline)
    requires
        after.now() == 0,
    ensures
        timer.shifted(before.now()).remaining_at(&after) == timer.remaining_at(&before),
        timer.shifted(before.now()).elapsed_at(&after) == timer.elapsed_at(&before),
        timer.shifted(before.now()).duration_at(&after) == timer.duration_at(&before),
        timer.shifted(before.now()).completed_at(&after) == timer.completed_at(&before),
{
    broadcast use StaticTimer::lemma_parts;

}

/// A fresh static timer of finite length is complete exactly once the timeline has
/// advanced by its length; a timer that never ends is never complete before the
/// timeline reaches the largest time.
pub proof fn law_static_timer_completion(
    timer: StaticTimer,
    start: StaticTimeline,
    later: StaticTimeline,
)
    requires
        timer.end_v() == time_type::sat_add(start.now(), timer.duration_v()),
        start.now() + timer.duration_v() <= time_type::INFINITY,
        later.now() >= start.now(),
    ensures
        timer.completed_at(&later) <==> later.now() - start.now() >= timer.duration_v(),
        timer.remaining_at(&later) + timer.elapsed_at(&later) == timer.duration_v(),
{
}

/// What is left of a static timer is the time until its end: it and the current
/// time add up to the end, and nothing is left once the end has passed.
pub proof fn law_static_timer_remaining(timer: StaticTimer, ctx: &StaticTimeline)
    ensures
        ctx.now() <= timer.end_v() ==> timer.remaining_at(ctx) + ctx.now() == timer.end_v(),
        ctx.now() > timer.end_v() ==> timer.remaining_at(ctx) == 0,
        timer.duration_at(ctx) == timer.duration_v(),
{
}

} // verus!
