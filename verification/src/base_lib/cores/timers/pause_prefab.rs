//! A pause switch that can proxy any timer: while paused, ticks do not reach it.
use vstd::prelude::*;
use crate::base_lib::cores::design_patterns::{DependCtx, Union};
use crate::base_lib::cores::timers::few_shot_times::TimerControlOp;
use crate::base_lib::cores::timers::tiny_timer::{
    CyclicalTrigger, Tickable, TimerControl, TimerPauseControl, TimerPauseView, TimerProgress,
    TimerView,
};
use crate::base_lib::cores::unify_types::time_type;

verus! {

/// A pause switch, not paused at first; it stops ticks from reaching the timer it
/// proxies and passes everything else through.
#[derive(Clone, Debug)]
pub struct PausePrefab(bool);

/// What to do to a pause switch.
#[derive(Clone, Copy, Debug, PartialEq, Eq, Structural)]
pub enum PauseControlOp {
    /// Freeze time.
    Pause,
    /// Let time run again.
    Resume,
}

impl Default for PausePrefab {
    fn default() -> (r: Self)
        ensures
            !r.paused(),
    {
        Self::new()
    }
}

impl TimerPauseView for PausePrefab {
    closed spec fn paused(&self) -> bool {
        self.0
    }

    fn is_paused(&self) -> bool {
        self.0
    }
}

impl TimerPauseControl for PausePrefab {
    closed spec fn after_pause(&self) -> Self {
        PausePrefab(true)
    }

    closed spec fn after_resume(&self) -> Self {
        PausePrefab(false)
    }

    fn pause(&mut self) {
        self.0 = true;
    }

    fn resume(&mut self) {
        self.0 = false;
    }
}

impl PausePrefab {
    /// Pausing pauses and resuming resumes.
    pub broadcast proof fn lemma_pause_resume(p: PausePrefab)
        ensures
            (#[trigger] p.after_pause()).paused(),
            !(#[trigger] p.after_resume()).paused(),
    {
    }

    /// A switch that is not paused.
    pub fn new() -> (r: Self)
        ensures
            !r.paused(),
    {
        PausePrefab(false)
    }

    /// Ticks `t` by `delta` unless paused.
    pub fn of_tickable<T: Tickable>(&self, t: &mut T, delta: time_type::T)
        ensures
            *final(t) == if self.paused() {
                *old(t)
            } else {
                old(t).ticked(delta)
            },
    {
        if !self.is_paused() {
            t.tick(delta);
        }
    }

    /// The switch seen together with `t`: paused as the switch is.
    pub fn of_timer_pause_view<'a, T>(&'a self, t: &'a T) -> (r: Union<&'a PausePrefab, &'a T>)
        ensures
            r.0 == self,
            r.1 == t,
    {
        Union::new(self, t)
    }

    /// Pauses or resumes the switch in front of `t`; `t` itself is untouched.
    pub fn of_timer_pause_control<T>(&mut self, t: &T, op: PauseControlOp)
        ensures
            op == PauseControlOp::Pause ==> *final(self) == old(self).after_pause(),
            op == PauseControlOp::Resume ==> *final(self) == old(self).after_resume(),
    {
        match op {
            PauseControlOp::Pause => self.pause(),
            PauseControlOp::Resume => self.resume(),
        }
    }

    /// `t`'s progress, read through the switch.
    pub fn of_timer_progress<'a, T: TimerProgress>(&'a self, t: &'a T) -> (r: Union<
        &'a PausePrefab,
        &'a T,
    >)
        ensures
            r.0 == self,
            r.1 == t,
    {
        Union::new(self, t)
    }

    /// `t`'s completion, read through the switch.
    pub fn of_timer_view<'a, T: TimerView>(&'a self, t: &'a T) -> (r: Union<&'a PausePrefab, &'a T>)
        ensures
            r.0 == self,
            r.1 == t,
    {
        Union::new(self, t)
    }

    /// Restarts or runs out `t`; the switch does not interfere.
    pub fn of_timer_control<T: TimerControl>(&self, t: &mut T, ctx: T::Ctx<'_>, op: TimerControlOp)
        ensures
            op == TimerControlOp::Reset ==> *final(t) == old(t).reset_at(ctx),
            op == TimerControlOp::Complete ==> *final(t) == old(t).completed_now(ctx),
    {
        match op {
            TimerControlOp::Reset => t.reset(ctx),
            TimerControlOp::Complete => t.complete(ctx),
        }
    }

    /// Tries to fire `t`; the switch does not interfere.
    pub fn of_cyclical_trigger<T: CyclicalTrigger>(&self, t: &mut T, ctx: T::Ctx<'_>) -> (r: bool)
        ensures
            (*final(t), r) == old(t).triggered_at(ctx),
    {
        t.try_trigger_once(ctx)
    }
}

impl<'b, T> TimerPauseView for Union<&'b PausePrefab, &'b T> {
    open spec fn paused(&self) -> bool {
        self.0.paused()
    }

    fn is_paused(&self) -> bool {
        self.0.is_paused()
    }
}

impl<'b, T: DependCtx> DependCtx for Union<&'b PausePrefab, &'b T> {
    type Ctx<'a> = T::Ctx<'a>;
}

impl<'b, T: TimerProgress> TimerProgress for Union<&'b PausePrefab, &'b T> {
    open spec fn elapsed_at(&self, ctx: T::Ctx<'_>) -> time_type::T {
        self.1.elapsed_at(ctx)
    }

    open spec fn remaining_at(&self, ctx: T::Ctx<'_>) -> time_type::T {
        self.1.remaining_at(ctx)
    }

    open spec fn duration_at(&self, ctx: T::Ctx<'_>) -> time_type::T {
        self.1.duration_at(ctx)
    }

    fn elapsed(&self, ctx: T::Ctx<'_>) -> time_type::T {
        self.1.elapsed(ctx)
    }

    fn remaining(&self, ctx: T::Ctx<'_>) -> time_type::T {
        self.1.remaining(ctx)
    }

    fn duration(&self, ctx: T::Ctx<'_>) -> time_type::T {
        self.1.duration(ctx)
    }
}

impl<'b, T: TimerView> TimerView for Union<&'b PausePrefab, &'b T> {
    open spec fn completed_at(&self, ctx: T::Ctx<'_>) -> bool {
        self.1.completed_at(ctx)
    }

    fn is_completed(&self, ctx: T::Ctx<'_>) -> bool {
        self.1.is_completed(ctx)
    }
}

/// `t` after the ticks `deltas`, in order, each sent through the switch `p` as
/// `of_tickable` sends it.
pub open spec fn ticked_through<T: Tickable>(p: PausePrefab, t: T, deltas: Seq<time_type::T>) -> T
    decreases deltas.len(),
{
    if deltas.len() == 0 {
        t
    } else {
        let prev = ticked_through(p, t, deltas.drop_last());
        if p.paused() {
            prev
        } else {
            prev.ticked(deltas.last())
        }
    }
}

/// `t` after the ticks `deltas`, in order, with nothing in between.
pub open spec fn ticked_all<T: Tickable>(t: T, deltas: Seq<time_type::T>) -> T
    decreases deltas.len(),
{
    if deltas.len() == 0 {
        t
    } else {
        ticked_all(t, deltas.drop_last()).ticked(deltas.last())
    }
}

/// A paused switch freezes the timer behind it through any run of ticks, and a
/// resumed one lets every tick through as if it were not there.
pub proof fn law_pause_freezes<T: Tickable>(p: PausePrefab, t: T, deltas: Seq<time_type::T>)
    ensures
        ticked_through(p.after_pause(), t, deltas) == t,
        ticked_through(p.after_resume(), t, deltas) == ticked_all(t, deltas),
    decreases deltas.len(),
{
    broadcast use PausePrefab::lemma_pause_resume;

    if deltas.len() > 0 {
        law_pause_freezes(p, t, deltas.drop_last());
    }
}

} // verus!
