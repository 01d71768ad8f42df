//! Timers that accumulate the time handed to them each frame: simple, suited to
//! progress display, short lives and local time scaling.
use vstd::prelude::*;
use crate::base_lib::cores::design_patterns::DependCtx;
use crate::base_lib::cores::timers::tiny_timer::{Tickable, TimerControl, TimerProgress, TimerView};
use crate::base_lib::cores::unify_types::time_type;

verus! {

/// A timer of fixed length, fed by `tick`; elapsed time stops at the length.
#[derive(Clone, Debug)]
pub struct TickTimer {
    elapsed: time_type::T,
    duration: time_type::T,
}

/// The smaller of two times.
pub open spec fn min_time(a: time_type::T, b: time_type::T) -> time_type::T {
    if a <= b {
        a
    } else {
        b
    }
}

impl TickTimer {
    /// Time passed so far.
    pub closed spec fn elapsed_v(&self) -> time_type::T {
        self.elapsed
    }

    /// The length.
    pub closed spec fn duration_v(&self) -> time_type::T {
        self.duration
    }

    /// The timer with these readings.
    pub closed spec fn from_parts(elapsed: time_type::T, duration: time_type::T) -> Self {
        TickTimer { elapsed, duration }
    }

    /// A timer is its readings.
    pub broadcast proof fn lemma_parts(elapsed: time_type::T, duration: time_type::T)
        ensures
            #[trigger] Self::from_parts(elapsed, duration).elapsed_v() == elapsed,
            Self::from_parts(elapsed, duration).duration_v() == duration,
    {
    }

    /// A fresh timer of length `duration`.
    pub fn new(duration: time_type::T) -> (r: Self)
        ensures
            r.elapsed_v() == 0,
            r.duration_v() == duration,
    {
        TickTimer { elapsed: time_type::ZERO, duration }
    }

    /// A fresh timer that never runs out.
    pub fn inf() -> (r: Self)
        ensures
            r.elapsed_v() == 0,
            r.duration_v() == time_type::INFINITY,
    {
        TickTimer { elapsed: time_type::ZERO, duration: time_type::INFINITY }
    }
}

impl Tickable for TickTimer {
    open spec fn ticked(&self, delta: time_type::T) -> Self {
        Self::from_parts(
            min_time(self.duration_v(), time_type::sat_add(self.elapsed_v(), delta)),
            self.duration_v(),
        )
    }

    /// Elapsed time grows by `delta`, but not past the length.
    fn tick(&mut self, delta: time_type::T) {
        let e = time_type::plus(self.elapsed, delta);
        self.elapsed = if self.duration <= e {
            self.duration
        } else {
            e
        };
    }
}

impl DependCtx for TickTimer {
    type Ctx<'a> = ();
}

impl TimerProgress for TickTimer {
    open spec fn elapsed_at(&self, ctx: ()) -> time_type::T {
        self.elapsed_v()
    }

    open spec fn remaining_at(&self, ctx: ()) -> time_type::T {
        time_type::sat_sub(self.duration_v(), self.elapsed_v())
    }

    open spec fn duration_at(&self, ctx: ()) -> time_type::T {
        self.duration_v()
    }

    fn elapsed(&self, ctx: ()) -> time_type::T {
        assert(self.elapsed_at(ctx) == self.elapsed_v());
        self.elapsed
    }

    fn remaining(&self, ctx: ()) -> time_type::T {
        time_type::minus(self.duration, self.elapsed)
    }

    fn duration(&self, ctx: ()) -> time_type::T {
        self.duration
    }
}

impl TimerView for TickTimer {
    open spec fn completed_at(&self, ctx: ()) -> bool {
        self.elapsed_v() >= self.duration_v()
    }

    fn is_completed(&self, ctx: ()) -> bool {
        self.elapsed >= self.duration
    }
}

impl TimerControl for TickTimer {
    open spec fn reset_at(&self, ctx: ()) -> Self {
        Self::from_parts(0, self.duration_v())
    }

    open spec fn completed_now(&self, ctx: ()) -> Self {
        Self::from_parts(self.duration_v(), self.duration_v())
    }

    fn reset(&mut self, ctx: ()) {
        self.elapsed = time_type::ZERO;
    }

    fn complete(&mut self, ctx: ()) {
        self.elapsed = self.duration;
    }
}

/// A tick timer never runs past its length, whatever is done to it.
pub proof fn law_tick_timer_bounded(t: TickTimer, delta: time_type::T)
    requires
        t.elapsed_v() <= t.duration_v(),
    ensures
        t.ticked(delta).elapsed_v() <= t.ticked(delta).duration_v(),
        t.reset_at(()).elapsed_v() <= t.reset_at(()).duration_v(),
        t.completed_now(()).elapsed_v() <= t.completed_now(()).duration_v(),
        t.ticked(delta).duration_v() == t.duration_v(),
{
    broadcast use TickTimer::lemma_parts;
}

/// A tick timer of finite length, ticked by at least what it has left, is complete;
/// a reset one is not, unless its length is zero; a timer that never runs out is
/// never complete.
pub proof fn law_tick_timer_completion(t: TickTimer, delta: time_type::T)
    requires
        t.elapsed_v() <= t.duration_v(),
    ensures
        delta >= t.remaining_at(()) ==> t.ticked(delta).completed_at(()),
        t.reset_at(()).completed_at(()) <==> t.duration_v() == 0,
        t.completed_now(()).completed_at(()),
        t.duration_v() == time_type::INFINITY && t.elapsed_v() < time_type::INFINITY && delta
            < time_type::INFINITY - t.elapsed_v() ==> !t.ticked(delta).completed_at(()),
{
    broadcast use TickTimer::lemma_parts;
}

/// Progress of a tick timer: elapsed and remaining time add up to its length;
/// ticking by `delta` takes exactly `delta` off what is left while it lasts; a reset
/// timer has its whole length left.
pub proof fn law_tick_timer_progress(t: TickTimer, delta: time_type::T)
    requires
        t.elapsed_v() <= t.duration_v(),
    ensures
        t.duration_at(()) == t.duration_v(),
        t.elapsed_at(()) == t.elapsed_v(),
        t.elapsed_at(()) + t.remaining_at(()) == t.duration_at(()),
        t.elapsed_v() + delta <= t.duration_v() ==> t.ticked(delta).remaining_at(()) + delta
            == t.remaining_at(()),
        t.reset_at(()).remaining_at(()) == t.duration_v(),
{
    broadcast use TickTimer::lemma_parts;
}

} // verus!
