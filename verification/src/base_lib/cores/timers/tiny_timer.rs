//! The capabilities of timers, split so that read-only and mutating capabilities
//! can be proxied separately: progress, completion, control, cyclic triggering,
//! pause view, pause control, ticking and ownership of a timer.
//!
//! Each capability carries, next to its methods, the spec functions that say what
//! the methods compute.
use vstd::prelude::*;
use crate::base_lib::cores::design_patterns::DependCtx;
use crate::base_lib::cores::unify_types::time_type;

verus! {

/// Driven once per frame.
///
/// Which comes first in a frame, the business logic or the tick, is the caller's
/// convention: ticking first narrows a limiting window (a cooldown is usable in the
/// frame it ends), ticking last widens a helping one (a grace window lasts one frame
/// longer).
pub trait Tickable: Sized {
    /// The value after `delta` has passed.
    spec fn ticked(&self, delta: time_type::T) -> Self;

    /// Lets `delta` pass.
    fn tick(&mut self, delta: time_type::T)
        ensures
            *final(self) == old(self).ticked(delta),
    ;
}

/// Read-only view of a timer's progress.
pub trait TimerProgress: DependCtx {
    spec fn elapsed_at(&self, ctx: Self::Ctx<'_>) -> time_type::T;

    spec fn remaining_at(&self, ctx: Self::Ctx<'_>) -> time_type::T;

    spec fn duration_at(&self, ctx: Self::Ctx<'_>) -> time_type::T;

    /// Time passed.
    fn elapsed(&self, ctx: Self::Ctx<'_>) -> (r: time_type::T)
        ensures
            r == self.elapsed_at(ctx),
    ;

    /// Time left.
    fn remaining(&self, ctx: Self::Ctx<'_>) -> (r: time_type::T)
        ensures
            r == self.remaining_at(ctx),
    ;

    /// Total length.
    fn duration(&self, ctx: Self::Ctx<'_>) -> (r: time_type::T)
        ensures
            r == self.duration_at(ctx),
    ;
}

/// Read-only view of a timer's completion.
pub trait TimerView: DependCtx {
    spec fn completed_at(&self, ctx: Self::Ctx<'_>) -> bool;

    /// Whether the timer has run out.
    fn is_completed(&self, ctx: Self::Ctx<'_>) -> (r: bool)
        ensures
            r == self.completed_at(ctx),
    ;
}

/// Control of a timer's run.
pub trait TimerControl: DependCtx + Sized {
    /// The timer after a restart.
    spec fn reset_at(&self, ctx: Self::Ctx<'_>) -> Self;

    /// The timer after being run out at once.
    spec fn completed_now(&self, ctx: Self::Ctx<'_>) -> Self;

    /// Restarts the timer.
    fn reset(&mut self, ctx: Self::Ctx<'_>)
        ensures
            *final(self) == old(self).reset_at(ctx),
    ;

    /// Runs the timer out at once.
    fn complete(&mut self, ctx: Self::Ctx<'_>)
        ensures
            *final(self) == old(self).completed_now(ctx),
    ;
}

/// Read-only view of a pause switch.
pub trait TimerPauseView {
    spec fn paused(&self) -> bool;

    /// Whether time is frozen.
    fn is_paused(&self) -> (r: bool)
        ensures
            r == self.paused(),
    ;
}

/// Control of a pause switch.
pub trait TimerPauseControl: Sized {
    /// The value after pausing.
    spec fn after_pause(&self) -> Self;

    /// The value after resuming.
    spec fn after_resume(&self) -> Self;

    /// Freezes time.
    fn pause(&mut self)
        ensures
            *final(self) == old(self).after_pause(),
    ;

    /// Lets time run again.
    fn resume(&mut self)
        ensures
            *final(self) == old(self).after_resume(),
    ;
}

/// A trigger that fires once per cycle.
pub trait CyclicalTrigger: DependCtx + Sized {
    /// The trigger after one attempt, and whether the attempt fired.
    spec fn triggered_at(&self, ctx: Self::Ctx<'_>) -> (Self, bool);

    /// Fires once if a cycle is due.
    fn try_trigger_once(&mut self, ctx: Self::Ctx<'_>) -> (r: bool)
        ensures
            (*final(self), r) == old(self).triggered_at(ctx),
    ;
}

/// Owns a timer; a type implements this once.
pub trait HasTimer {
    type Timer;

    spec fn timer(&self) -> Self::Timer;

    fn get_timer(&self) -> (r: &Self::Timer)
        ensures
            *r == self.timer(),
    ;

    fn get_timer_mut(&mut self) -> (r: &mut Self::Timer)
        ensures
            *r == old(self).timer(),
            final(self).timer() == *final(r),
    ;
}

} // verus!
