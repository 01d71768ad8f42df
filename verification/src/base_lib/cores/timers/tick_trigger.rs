//! Triggers fed by `tick`, firing once per cycle.
use vstd::prelude::*;
use crate::base_lib::cores::design_patterns::DependCtx;
use crate::base_lib::cores::timers::few_shot_times::{FewShotTimes, TimerControlOp};
use crate::base_lib::cores::timers::tiny_timer::{
    CyclicalTrigger, Tickable, TimerControl, TimerProgress, TimerView,
};
use crate::base_lib::cores::unify_types::time_type;

verus! {

/// A trigger that fires every `cycle` forever. Elapsed time is not capped: each
/// firing consumes one cycle of it.
#[derive(Clone, Debug)]
pub struct InfiniteTickTrigger {
    elapsed: time_type::T,
    cycle: time_type::T,
}

impl InfiniteTickTrigger {
    /// Time accumulated and not yet consumed by firings.
    pub closed spec fn elapsed_v(&self) -> time_type::T {
        self.elapsed
    }

    /// The cycle.
    pub closed spec fn cycle_v(&self) -> time_type::T {
        self.cycle
    }

    /// The trigger with these readings.
    pub closed spec fn from_parts(elapsed: time_type::T, cycle: time_type::T) -> Self {
        InfiniteTickTrigger { elapsed, cycle }
    }

    /// A trigger is its readings.
    pub broadcast proof fn lemma_parts(elapsed: time_type::T, cycle: time_type::T)
        ensures
            #[trigger] Self::from_parts(elapsed, cycle).elapsed_v() == elapsed,
            Self::from_parts(elapsed, cycle).cycle_v() == cycle,
    {
    }

    /// A fresh trigger with the given cycle.
    pub fn new(cycle: time_type::T) -> (r: Self)
        ensures
            r.elapsed_v() == 0,
            r.cycle_v() == cycle,
    {
        InfiniteTickTrigger { elapsed: time_type::ZERO, cycle }
    }
}

impl Tickable for InfiniteTickTrigger {
    open spec fn ticked(&self, delta: time_type::T) -> Self {
        Self::from_parts(time_type::sat_add(self.elapsed_v(), delta), self.cycle_v())
    }

    /// Accumulates `delta`, without cap.
    fn tick(&mut self, delta: time_type::T) {
        self.elapsed = time_type::plus(self.elapsed, delta);
    }
}

impl DependCtx for InfiniteTickTrigger {
    type Ctx<'a> = ();
}

impl TimerProgress for InfiniteTickTrigger {
    /// Accumulated time; firings should consume it before it is shown.
    open spec fn elapsed_at(&self, ctx: ()) -> time_type::T {
        self.elapsed_v()
    }

    open spec fn remaining_at(&self, ctx: ()) -> time_type::T {
        time_type::sat_sub(self.cycle_v(), self.elapsed_v())
    }

    open spec fn duration_at(&self, ctx: ()) -> time_type::T {
        self.cycle_v()
    }

    fn elapsed(&self, ctx: ()) -> time_type::T {
        self.elapsed
    }

    fn remaining(&self, ctx: ()) -> time_type::T {
        time_type::minus(self.cycle, self.elapsed)
    }

    fn duration(&self, ctx: ()) -> time_type::T {
        self.cycle
    }
}

impl TimerView for InfiniteTickTrigger {
    /// Never runs out.
    open spec fn completed_at(&self, ctx: ()) -> bool {
        false
    }

    fn is_completed(&self, ctx: ()) -> bool {
        false
    }
}

impl TimerControl for InfiniteTickTrigger {
    open spec fn reset_at(&self, ctx: ()) -> Self {
        Self::from_parts(0, self.cycle_v())
    }

    /// Cannot be run out: unchanged.
    open spec fn completed_now(&self, ctx: ()) -> Self {
        *self
    }

    fn reset(&mut self, ctx: ()) {
        self.elapsed = time_type::ZERO;
    }

    fn complete(&mut self, ctx: ()) {
    }
}

impl CyclicalTrigger for InfiniteTickTrigger {
    /// Fires when a whole cycle has accumulated, consuming it.
    open spec fn triggered_at(&self, ctx: ()) -> (Self, bool) {
        if self.elapsed_v() >= self.cycle_v() {
            (Self::from_parts((self.elapsed_v() - self.cycle_v()) as time_type::T, self.cycle_v()), true)
        } else {
            (*self, false)
        }
    }

    fn try_trigger_once(&mut self, ctx: ()) -> bool {
        if self.elapsed >= self.cycle {
            self.elapsed = self.elapsed - self.cycle;
            true
        } else {
            false
        }
    }
}

/// A trigger that fires every `cycle`, at most `limit` times until restarted.
#[derive(Clone, Debug)]
pub struct FewShotTickTrigger {
    few_shot: FewShotTimes,
    inf_trigger: InfiniteTickTrigger,
}

impl FewShotTickTrigger {
    /// The quota.
    pub closed spec fn quota(&self) -> FewShotTimes {
        self.few_shot
    }

    /// The underlying endless trigger.
    pub closed spec fn inner(&self) -> InfiniteTickTrigger {
        self.inf_trigger
    }

    /// The trigger made of these parts.
    pub closed spec fn from_parts(few_shot: FewShotTimes, inf_trigger: InfiniteTickTrigger) -> Self {
        FewShotTickTrigger { few_shot, inf_trigger }
    }

    /// A trigger is its parts.
    pub broadcast proof fn lemma_parts(few_shot: FewShotTimes, inf_trigger: InfiniteTickTrigger)
        ensures
            #[trigger] Self::from_parts(few_shot, inf_trigger).quota() == few_shot,
            Self::from_parts(few_shot, inf_trigger).inner() == inf_trigger,
    {
    }

    /// A fresh trigger with the given cycle and quota.
    pub fn new(cycle: time_type::T, limit_time: u32) -> (r: Self)
        ensures
            r.quota().current_v() == 0,
            r.quota().limit_v() == limit_time,
            r.inner().elapsed_v() == 0,
            r.inner().cycle_v() == cycle,
    {
        FewShotTickTrigger {
            few_shot: FewShotTimes::new(limit_time),
            inf_trigger: InfiniteTickTrigger::new(cycle),
        }
    }
}

impl Tickable for FewShotTickTrigger {
    open spec fn ticked(&self, delta: time_type::T) -> Self {
        Self::from_parts(self.quota(), self.inner().ticked(delta))
    }

    fn tick(&mut self, delta: time_type::T) {
        self.inf_trigger.tick(delta);
    }
}

impl DependCtx for FewShotTickTrigger {
    type Ctx<'a> = ();
}

impl TimerProgress for FewShotTickTrigger {
    open spec fn elapsed_at(&self, ctx: ()) -> time_type::T {
        self.inner().elapsed_at(())
    }

    open spec fn remaining_at(&self, ctx: ()) -> time_type::T {
        self.inner().remaining_at(())
    }

    open spec fn duration_at(&self, ctx: ()) -> time_type::T {
        self.inner().duration_at(())
    }

    fn elapsed(&self, ctx: ()) -> time_type::T {
        self.inf_trigger.elapsed(())
    }

    fn remaining(&self, ctx: ()) -> time_type::T {
        self.inf_trigger.remaining(())
    }

    fn duration(&self, ctx: ()) -> time_type::T {
        self.inf_trigger.duration(())
    }
}

impl TimerView for FewShotTickTrigger {
    /// Complete once the quota is used up.
    open spec fn completed_at(&self, ctx: ()) -> bool {
        self.quota().current_v() >= self.quota().limit_v()
    }

    fn is_completed(&self, ctx: ()) -> bool {
        self.few_shot.of_timer_view(&self.inf_trigger).is_completed(())
    }
}

impl TimerControl for FewShotTickTrigger {
    /// Restarts both the quota and the cycle.
    open spec fn reset_at(&self, ctx: ()) -> Self {
        Self::from_parts(
            FewShotTimes::spec_with_current(self.quota(), 0),
            self.inner().reset_at(()),
        )
    }

    /// Uses up the quota.
    open spec fn completed_now(&self, ctx: ()) -> Self {
        Self::from_parts(
            FewShotTimes::spec_with_current(self.quota(), self.quota().limit_v()),
            self.inner().completed_now(()),
        )
    }

    fn reset(&mut self, ctx: ()) {
        let ghost q = self.few_shot;
        self.few_shot.of_timer_control(&mut self.inf_trigger, (), TimerControlOp::Reset);
        proof {
            FewShotTimes::lemma_with_current(q, 0);
            FewShotTimes::lemma_ext(self.few_shot, FewShotTimes::spec_with_current(q, 0));
        }
    }

    fn complete(&mut self, ctx: ()) {
        let ghost q = self.few_shot;
        self.few_shot.of_timer_control(&mut self.inf_trigger, (), TimerControlOp::Complete);
        proof {
            FewShotTimes::lemma_with_current(q, q.limit_v());
            FewShotTimes::lemma_ext(self.few_shot, FewShotTimes::spec_with_current(q, q.limit_v()));
        }
    }
}

impl CyclicalTrigger for FewShotTickTrigger {
    /// Fires when a cycle is due and quota is left; a due cycle is consumed even
    /// when the quota is used up.
    open spec fn triggered_at(&self, ctx: ()) -> (Self, bool) {
        let (t, fired) = self.inner().triggered_at(());
        let ok = fired && self.quota().current_v() < self.quota().limit_v();
        (
            Self::from_parts(
                if ok {
                    FewShotTimes::spec_with_current(
                        self.quota(),
                        (self.quota().current_v() + 1) as u32,
                    )
                } else {
                    self.quota()
                },
                t,
            ),
            ok,
        )
    }

    fn try_trigger_once(&mut self, ctx: ()) -> bool {
        let ghost q = self.few_shot;
        let r = self.few_shot.of_cyclical_trigger(&mut self.inf_trigger, ());
        proof {
            if r {
                FewShotTimes::lemma_with_current(q, (q.current_v() + 1) as u32);
                FewShotTimes::lemma_ext(
                    self.few_shot,
                    FewShotTimes::spec_with_current(q, (q.current_v() + 1) as u32),
                );
            } else {
                FewShotTimes::lemma_ext(self.few_shot, q);
            }
        }
        r
    }
}

/// One call on a trigger: `tick` by some time, or `try_trigger_once`.
pub enum TriggerCall {
    Tick(time_type::T),
    TryTrigger,
}

/// The trigger after a run of calls, and how many `try_trigger_once` calls fired.
pub open spec fn run_calls(t: FewShotTickTrigger, calls: Seq<TriggerCall>) -> (
    FewShotTickTrigger,
    nat,
)
    decreases calls.len(),
{
    if calls.len() == 0 {
        (t, 0)
    } else {
        let prev = run_calls(t, calls.drop_last());
        match calls.last() {
            TriggerCall::Tick(delta) => (prev.0.ticked(delta), prev.1),
            TriggerCall::TryTrigger => {
                let (next, fired) = prev.0.triggered_at(());
                (next, if fired {
                    prev.1 + 1
                } else {
                    prev.1
                })
            },
        }
    }
}

/// A few-shot trigger fires at most its quota: over any run of `tick` and
/// `try_trigger_once` calls without a reset, the firings add to the quota already
/// used, never beyond the limit; a fresh trigger fires at most `limit_time` times.
pub proof fn law_few_shot_trigger_fires_within_limit(t: FewShotTickTrigger, calls: Seq<TriggerCall>)
    requires
        t.quota().current_v() <= t.quota().limit_v(),
    ensures
        run_calls(t, calls).0.quota().limit_v() == t.quota().limit_v(),
        run_calls(t, calls).0.quota().current_v() == t.quota().current_v() + run_calls(t, calls).1,
        t.quota().current_v() + run_calls(t, calls).1 <= t.quota().limit_v(),
    decreases calls.len(),
{
    if calls.len() > 0 {
        let d = calls.drop_last();
        law_few_shot_trigger_fires_within_limit(t, d);
        let prev = run_calls(t, d);
        let q = prev.0.quota();
        match calls.last() {
            TriggerCall::Tick(delta) => {
                FewShotTickTrigger::lemma_parts(q, prev.0.inner().ticked(delta));
            },
            TriggerCall::TryTrigger => {
                let (it, fired) = prev.0.inner().triggered_at(());
                if fired && q.current_v() < q.limit_v() {
                    let nq = FewShotTimes::spec_with_current(q, (q.current_v() + 1) as u32);
                    FewShotTimes::lemma_with_current(q, (q.current_v() + 1) as u32);
                    FewShotTickTrigger::lemma_parts(nq, it);
                } else {
                    FewShotTickTrigger::lemma_parts(q, it);
                }
            },
        }
    }
}

/// Progress of a tick trigger within its cycle: what has accumulated and what is
/// left add up to the cycle; ticking by `delta` takes exactly `delta` off what is
/// left (while it stays within the cycle); a fresh or reset trigger has the whole
/// cycle left.
pub proof fn law_tick_trigger_progress(t: InfiniteTickTrigger, delta: time_type::T)
    ensures
        t.duration_at(()) == t.cycle_v(),
        t.elapsed_at(()) == t.elapsed_v(),
        t.elapsed_v() <= t.cycle_v() ==> t.elapsed_at(()) + t.remaining_at(()) == t.cycle_v(),
        t.elapsed_v() > t.cycle_v() ==> t.remaining_at(()) == 0,
        t.elapsed_v() + delta <= t.cycle_v() ==> t.ticked(delta).remaining_at(()) + delta
            == t.remaining_at(()),
        t.reset_at(()).remaining_at(()) == t.cycle_v(),
        t.reset_at(()).elapsed_at(()) == 0,
{
    broadcast use InfiniteTickTrigger::lemma_parts;
}

/// A tick trigger fires exactly when a whole cycle has accumulated, and a firing
/// consumes exactly one cycle of it; otherwise nothing changes.
pub proof fn law_tick_trigger_fires_per_cycle(t: InfiniteTickTrigger)
    ensures
        t.triggered_at(()).1 <==> t.elapsed_v() >= t.cycle_v(),
        t.triggered_at(()).0.cycle_v() == t.cycle_v(),
        t.triggered_at(()).1 ==> t.triggered_at(()).0.elapsed_v() + t.cycle_v() == t.elapsed_v(),
        !t.triggered_at(()).1 ==> t.triggered_at(()).0 == t,
{
    broadcast use InfiniteTickTrigger::lemma_parts;
}

} // verus!
