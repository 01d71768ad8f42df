//! Triggers kept as absolute timestamps on a static timeline.
use vstd::prelude::*;
use crate::base_lib::cores::design_patterns::DependCtx;
use crate::base_lib::cores::timers::few_shot_times::{FewShotTimes, TimerControlOp};
use crate::base_lib::cores::timers::static_timer::StaticTimeline;
use crate::base_lib::cores::timers::tiny_timer::{
    CyclicalTrigger, TimerControl, TimerProgress, TimerView,
};
use crate::base_lib::cores::unify_types::time_type;

verus! {

/// A trigger that fires every `cycle` of the timeline, forever.
#[derive(Clone, Debug)]
pub struct InfiniteStaticTrigger {
    /// The cycle.
    cycle: time_type::T,
    /// When it next fires.
    end_at: time_type::T,
}

impl InfiniteStaticTrigger {
    /// The cycle.
    pub closed spec fn cycle_v(&self) -> time_type::T {
        self.cycle
    }

    /// When it next fires.
    pub closed spec fn end_v(&self) -> time_type::T {
        self.end_at
    }

    /// The trigger with these readings.
    pub closed spec fn from_parts(cycle: time_type::T, end_at: time_type::T) -> Self {
        InfiniteStaticTrigger { cycle, end_at }
    }

    /// A trigger is its readings.
    pub broadcast proof fn lemma_parts(cycle: time_type::T, end_at: time_type::T)
        ensures
            #[trigger] Self::from_parts(cycle, end_at).cycle_v() == cycle,
            Self::from_parts(cycle, end_at).end_v() == end_at,
    {
    }

    /// A trigger with the given cycle whose first cycle starts now.
    pub fn new(timeline: &StaticTimeline, cycle: time_type::T) -> (r: Self)
        ensures
            r.cycle_v() == cycle,
            r.end_v() == time_type::sat_add(timeline.now(), cycle),
    {
        InfiniteStaticTrigger { cycle, end_at: time_type::plus(timeline.current_time(), cycle) }
    }
}

impl DependCtx for InfiniteStaticTrigger {
    type Ctx<'a> = &'a StaticTimeline;
}

impl TimerProgress for InfiniteStaticTrigger {
    /// Time into the current cycle; firings should be tried first.
    open spec fn elapsed_at(&self, ctx: &StaticTimeline) -> time_type::T {
        time_type::sat_sub(self.cycle_v(), self.remaining_at(ctx))
    }

    open spec fn remaining_at(&self, ctx: &StaticTimeline) -> time_type::T {
        time_type::sat_sub(self.end_v(), ctx.now())
    }

    open spec fn duration_at(&self, ctx: &StaticTimeline) -> time_type::T {
        self.cycle_v()
    }

    fn elapsed(&self, ctx: &StaticTimeline) -> time_type::T {
        time_type::minus(self.duration(ctx), self.remaining(ctx))
    }

    fn remaining(&self, ctx: &StaticTimeline) -> time_type::T {
        time_type::minus(self.end_at, ctx.current_time())
    }

    fn duration(&self, ctx: &StaticTimeline) -> time_type::T {
        self.cycle
    }
}

impl TimerView for InfiniteStaticTrigger {
    /// Never runs out.
    open spec fn completed_at(&self, ctx: &StaticTimeline) -> bool {
        false
    }

    fn is_completed(&self, ctx: &StaticTimeline) -> bool {
        false
    }
}

impl TimerControl for InfiniteStaticTrigger {
    /// The current cycle starts again now.
    open spec fn reset_at(&self, ctx: &StaticTimeline) -> Self {
        Self::from_parts(self.cycle_v(), time_type::sat_add(ctx.now(), self.cycle_v()))
    }

    /// Cannot be run out: unchanged.
    open spec fn completed_now(&self, ctx: &StaticTimeline) -> Self {
        *self
    }

    fn reset(&mut self, ctx: &StaticTimeline) {
        self.end_at = time_type::plus(ctx.current_time(), self.cycle);
    }

    fn complete(&mut self, ctx: &StaticTimeline) {
    }
}

impl CyclicalTrigger for InfiniteStaticTrigger {
    /// Fires once the firing time is reached, moving it one cycle on.
    open spec fn triggered_at(&self, ctx: &StaticTimeline) -> (Self, bool) {
        if self.end_v() <= ctx.now() {
            (
                Self::from_parts(self.cycle_v(), time_type::sat_add(self.end_v(), self.cycle_v())),
                true,
            )
        } else {
            (*self, false)
        }
    }

    fn try_trigger_once(&mut self, ctx: &StaticTimeline) -> bool {
        if self.end_at <= ctx.current_time() {
            self.end_at = time_type::plus(self.end_at, self.cycle);
            true
        } else {
            false
        }
    }
}

/// A trigger that fires every `cycle` of the timeline, at most `limit` times until
/// restarted.
#[derive(Clone, Debug)]
pub struct FewShotStaticTrigger {
    /// The quota.
    pub few_shot: FewShotTimes,
    /// The underlying endless trigger.
    pub inf_tg: InfiniteStaticTrigger,
}

impl FewShotStaticTrigger {
    /// The quota.
    pub closed spec fn quota(&self) -> FewShotTimes {
        self.few_shot
    }

    /// The underlying endless trigger.
    pub closed spec fn inner(&self) -> InfiniteStaticTrigger {
        self.inf_tg
    }

    /// The trigger made of these parts.
    pub closed spec fn from_parts(few_shot: FewShotTimes, inf_tg: InfiniteStaticTrigger) -> Self {
        FewShotStaticTrigger { few_shot, inf_tg }
    }

    /// A trigger is its parts.
    pub broadcast proof fn lemma_parts(few_shot: FewShotTimes, inf_tg: InfiniteStaticTrigger)
        ensures
            #[trigger] Self::from_parts(few_shot, inf_tg).quota() == few_shot,
            Self::from_parts(few_shot, inf_tg).inner() == inf_tg,
    {
    }

    /// A trigger with the given cycle and quota whose first cycle starts now.
    pub fn new(timeline: &StaticTimeline, cycle: time_type::T, limit_time: u32) -> (r: Self)
        ensures
            r.quota().current_v() == 0,
            r.quota().limit_v() == limit_time,
            r.inner().cycle_v() == cycle,
            r.inner().end_v() == time_type::sat_add(timeline.now(), cycle),
    {
        FewShotStaticTrigger {
            few_shot: FewShotTimes::new(limit_time),
            inf_tg: InfiniteStaticTrigger::new(timeline, cycle),
        }
    }
}

impl DependCtx for FewShotStaticTrigger {
    type Ctx<'a> = &'a StaticTimeline;
}

impl TimerProgress for FewShotStaticTrigger {
    open spec fn elapsed_at(&self, ctx: &StaticTimeline) -> time_type::T {
        self.inner().elapsed_at(ctx)
    }

    open spec fn remaining_at(&self, ctx: &StaticTimeline) -> time_type::T {
        self.inner().remaining_at(ctx)
    }

    open spec fn duration_at(&self, ctx: &StaticTimeline) -> time_type::T {
        self.inner().duration_at(ctx)
    }

    fn elapsed(&self, ctx: &StaticTimeline) -> time_type::T {
        self.inf_tg.elapsed(ctx)
    }

    fn remaining(&self, ctx: &StaticTimeline) -> time_type::T {
        self.inf_tg.remaining(ctx)
    }

    fn duration(&self, ctx: &StaticTimeline) -> time_type::T {
        self.inf_tg.duration(ctx)
    }
}

impl TimerView for FewShotStaticTrigger {
    /// Complete once the quota is used up.
    open spec fn completed_at(&self, ctx: &StaticTimeline) -> bool {
        self.quota().current_v() >= self.quota().limit_v()
    }

    fn is_completed(&self, ctx: &StaticTimeline) -> bool {
        self.few_shot.of_timer_view(&self.inf_tg).is_completed(ctx)
    }
}

impl TimerControl for FewShotStaticTrigger {
    /// Restarts both the quota and the cycle.
    open spec fn reset_at(&self, ctx: &StaticTimeline) -> Self {
        Self::from_parts(
            FewShotTimes::spec_with_current(self.quota(), 0),
            self.inner().reset_at(ctx),
        )
    }

    /// Uses up the quota.
    open spec fn completed_now(&self, ctx: &StaticTimeline) -> Self {
        Self::from_parts(
            FewShotTimes::spec_with_current(self.quota(), self.quota().limit_v()),
            self.inner().completed_now(ctx),
        )
    }

    fn reset(&mut self, ctx: &StaticTimeline) {
        let ghost q = self.few_shot;
        self.few_shot.of_timer_control(&mut self.inf_tg, ctx, TimerControlOp::Reset);
        proof {
            FewShotTimes::lemma_with_current(q, 0);
            FewShotTimes::lemma_ext(self.few_shot, FewShotTimes::spec_with_current(q, 0));
        }
    }

    fn complete(&mut self, ctx: &StaticTimeline) {
        let ghost q = self.few_shot;
        self.few_shot.of_timer_control(&mut self.inf_tg, ctx, TimerControlOp::Complete);
        proof {
            FewShotTimes::lemma_with_current(q, q.limit_v());
            FewShotTimes::lemma_ext(self.few_shot, FewShotTimes::spec_with_current(q, q.limit_v()));
        }
    }
}

impl CyclicalTrigger for FewShotStaticTrigger {
    /// Fires when a cycle is due and quota is left; a due cycle is consumed even
    /// when the quota is used up.
    open spec fn triggered_at(&self, ctx: &StaticTimeline) -> (Self, bool) {
        let (t, fired) = self.inner().triggered_at(ctx);
        let ok = fired && self.quota().current_v() < self.quota().limit_v();
        (
            Self::from_parts(
                if ok {
                    FewShotTimes::spec_with_current(
                        self.quota(),
                        (self.quota().current_v() + 1) as u32,
                    )
                } else {
                    self.quota()
                },
                t,
            ),
            ok,
        )
    }

    fn try_trigger_once(&mut self, ctx: &StaticTimeline) -> bool {
        let ghost q = self.few_shot;
        let r = self.few_shot.of_cyclical_trigger(&mut self.inf_tg, ctx);
        proof {
            if r {
                FewShotTimes::lemma_with_current(q, (q.current_v() + 1) as u32);
                FewShotTimes::lemma_ext(
                    self.few_shot,
                    FewShotTimes::spec_with_current(q, (q.current_v() + 1) as u32),
                );
            } else {
                FewShotTimes::lemma_ext(self.few_shot, q);
            }
        }
        r
    }
}

/// A static trigger fires exactly when the timeline has reached its firing time, at
/// most once per attempt, and a firing moves the firing time exactly one cycle past
/// the previous one, whatever the current time: a late frame does not push the
/// schedule back. A trigger not yet due is left as it is.
pub proof fn law_static_trigger_fires_on_schedule(t: InfiniteStaticTrigger, ctx: &StaticTimeline)
    ensures
        t.triggered_at(ctx).1 <==> t.end_v() <= ctx.now(),
        t.triggered_at(ctx).0.cycle_v() == t.cycle_v(),
        t.triggered_at(ctx).1 && t.end_v() + t.cycle_v() <= time_type::INFINITY
            ==> t.triggered_at(ctx).0.end_v() == t.end_v() + t.cycle_v(),
        t.triggered_at(ctx).1 && t.end_v() + t.cycle_v() > time_type::INFINITY
            ==> t.triggered_at(ctx).0.end_v() == time_type::INFINITY,
        !t.triggered_at(ctx).1 ==> t.triggered_at(ctx).0 == t,
{
    broadcast use InfiniteStaticTrigger::lemma_parts;
}

/// Two firings of a static trigger on any two timelines are two cycles apart from
/// the first firing time: the schedule depends on the cycle alone.
pub proof fn law_static_trigger_two_firings(
    t: InfiniteStaticTrigger,
    first: &StaticTimeline,
    second: &StaticTimeline,
)
    requires
        t.end_v() <= first.now(),
        t.end_v() + t.cycle_v() <= second.now(),
        t.end_v() + 2 * t.cycle_v() <= time_type::INFINITY,
    ensures
        t.triggered_at(first).1,
        t.triggered_at(first).0.triggered_at(second).1,
        t.triggered_at(first).0.triggered_at(second).0.end_v() == t.end_v() + 2 * t.cycle_v(),
{
    broadcast use InfiniteStaticTrigger::lemma_parts;
}

/// What is left of a static trigger's cycle is the time until it next fires; a
/// reset starts a whole cycle now, so that right after a reset the whole cycle is
/// left and the trigger is not due (for a cycle that is not zero).
pub proof fn law_static_trigger_progress_and_reset(t: InfiniteStaticTrigger, ctx: &StaticTimeline)
    ensures
        t.duration_at(ctx) == t.cycle_v(),
        ctx.now() <= t.end_v() ==> t.remaining_at(ctx) + ctx.now() == t.end_v(),
        ctx.now() > t.end_v() ==> t.remaining_at(ctx) == 0,
        t.end_v() - ctx.now() <= t.cycle_v() ==> t.remaining_at(ctx) + t.elapsed_at(ctx)
            == t.cycle_v(),
        t.reset_at(ctx).cycle_v() == t.cycle_v(),
        ctx.now() + t.cycle_v() <= time_type::INFINITY ==> t.reset_at(ctx).end_v() == ctx.now()
            + t.cycle_v(),
        ctx.now() + t.cycle_v() <= time_type::INFINITY ==> t.reset_at(ctx).remaining_at(ctx)
            == t.cycle_v(),
        ctx.now() + t.cycle_v() <= time_type::INFINITY && t.cycle_v() > 0 ==> !t.reset_at(
            ctx,
        ).triggered_at(ctx).1,
{
    broadcast use InfiniteStaticTrigger::lemma_parts;
}

} // verus!
