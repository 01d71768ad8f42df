//! A quota of firings that limits a cyclic trigger.
use vstd::prelude::*;
use crate::base_lib::cores::design_patterns::{DependCtx, Union};
use crate::base_lib::cores::timers::tiny_timer::{CyclicalTrigger, TimerControl, TimerView};

verus! {

/// A quota of firings; it shapes completion, control and triggering of the timer
/// it is combined with.
#[derive(Clone, Debug)]
pub struct FewShotTimes {
    current: u32,
    limit: u32,
}

/// What to do to a timer through a proxy.
#[derive(Clone, Copy, Debug, PartialEq, Eq, Structural)]
pub enum TimerControlOp {
    /// Restart.
    Reset,
    /// Run out at once.
    Complete,
}

impl FewShotTimes {
    /// Firings so far.
    pub closed spec fn current_v(&self) -> u32 {
        self.current
    }

    /// The quota.
    pub closed spec fn limit_v(&self) -> u32 {
        self.limit
    }

    /// The quota `f` with `current` firings used.
    pub closed spec fn spec_with_current(f: FewShotTimes, current: u32) -> FewShotTimes {
        FewShotTimes { current, limit: f.limit }
    }

    /// A quota is its readings.
    pub broadcast proof fn lemma_with_current(f: FewShotTimes, current: u32)
        ensures
            #[trigger] Self::spec_with_current(f, current).current_v() == current,
            Self::spec_with_current(f, current).limit_v() == f.limit_v(),
    {
    }

    /// Two quotas with the same readings are equal.
    pub proof fn lemma_ext(a: FewShotTimes, b: FewShotTimes)
        requires
            a.current_v() == b.current_v(),
            a.limit_v() == b.limit_v(),
        ensures
            a == b,
    {
    }

    /// The quota after one attempt at which the timer answered `fired`, and whether
    /// the attempt fired.
    pub open spec fn after_attempt(self, fired: bool) -> (FewShotTimes, bool) {
        if fired && self.current_v() < self.limit_v() {
            (Self::spec_with_current(self, (self.current_v() + 1) as u32), true)
        } else {
            (self, false)
        }
    }

    /// The quota after a run of attempts at which the timer answered `answers`, and
    /// how many of them fired.
    pub open spec fn after_attempts(self, answers: Seq<bool>) -> (FewShotTimes, nat)
        decreases answers.len(),
    {
        if answers.len() == 0 {
            (self, 0)
        } else {
            let prev = self.after_attempts(answers.drop_last());
            let step = prev.0.after_attempt(answers.last());
            (step.0, if step.1 {
                prev.1 + 1
            } else {
                prev.1
            })
        }
    }

    /// A quota of `limit` firings, none used.
    pub fn new(limit: u32) -> (r: Self)
        ensures
            r.current_v() == 0,
            r.limit_v() == limit,
    {
        FewShotTimes { current: 0, limit }
    }

    /// The quota seen together with `t`; complete once the quota is used up,
    /// whatever `t` says.
    pub fn of_timer_view<'a, T: DependCtx>(&'a self, t: &'a T) -> (r: Union<&'a FewShotTimes, &'a T>)
        ensures
            r.0 == self,
            r.1 == t,
    {
        Union::new(self, t)
    }

    /// Restarts, or runs out, both the quota and `t`.
    pub fn of_timer_control<T: TimerControl>(
        &mut self,
        t: &mut T,
        ctx: T::Ctx<'_>,
        op: TimerControlOp,
    )
        ensures
            op == TimerControlOp::Reset ==> final(self).current_v() == 0 && *final(t) == old(
                t,
            ).reset_at(ctx),
            op == TimerControlOp::Complete ==> final(self).current_v() == old(self).limit_v()
                && *final(t) == old(t).completed_now(ctx),
            final(self).limit_v() == old(self).limit_v(),
    {
        match op {
            TimerControlOp::Reset => {
                self.current = 0;
                t.reset(ctx);
            },
            TimerControlOp::Complete => {
                self.current = self.limit;
                t.complete(ctx);
            },
        }
    }

    /// Fires when `t` fires and quota is left; uses one unit of quota then.
    ///
    /// `t` is asked first: when it fires but the quota is used up, its cycle is
    /// consumed and the firing is dropped. As the quota only ever shrinks until a
    /// restart (which restarts both), nothing needs to be undone.
    pub fn of_cyclical_trigger<T: CyclicalTrigger>(&mut self, t: &mut T, ctx: T::Ctx<'_>) -> (r:
        bool)
        ensures
            *final(t) == old(t).triggered_at(ctx).0,
            r == (old(t).triggered_at(ctx).1 && old(self).current_v() < old(self).limit_v()),
            final(self).current_v() == if r {
                (old(self).current_v() + 1) as u32
            } else {
                old(self).current_v()
            },
            final(self).limit_v() == old(self).limit_v(),
            (*final(self), r) == old(self).after_attempt(old(t).triggered_at(ctx).1),
    {
        if !t.try_trigger_once(ctx) {
            return false;
        }
        if self.current >= self.limit {
            false
        } else {
            self.current = self.current + 1;
            true
        }
    }
}

impl<'b, T: DependCtx> DependCtx for Union<&'b FewShotTimes, &'b T> {
    type Ctx<'a> = T::Ctx<'a>;
}

impl<'b, T: DependCtx> TimerView for Union<&'b FewShotTimes, &'b T> {
    /// Only the quota counts; the timer itself may never run out.
    open spec fn completed_at(&self, ctx: T::Ctx<'_>) -> bool {
        self.0.current_v() >= self.0.limit_v()
    }

    fn is_completed(&self, ctx: T::Ctx<'_>) -> bool {
        self.0.current >= self.0.limit
    }
}

/// How many of `answers` are `true`.
pub open spec fn count_true(answers: Seq<bool>) -> nat
    decreases answers.len(),
{
    if answers.len() == 0 {
        0
    } else {
        count_true(answers.drop_last()) + if answers.last() {
            1nat
        } else {
            0nat
        }
    }
}

/// The smaller of `a` and `b`.
pub open spec fn min_nat(a: nat, b: nat) -> nat {
    if a <= b {
        a
    } else {
        b
    }
}

/// A quota fires at most as often as it has firings left, and exactly that often
/// when the timer behind it fires often enough: over any run of attempts, the
/// firings are the fewer of the timer's firings and the quota left, and the quota
/// used grows by the firings.
pub proof fn law_few_shot_fires_within_quota(f: FewShotTimes, answers: Seq<bool>)
    requires
        f.current_v() <= f.limit_v(),
    ensures
        f.after_attempts(answers).1 == min_nat(
            count_true(answers),
            (f.limit_v() - f.current_v()) as nat,
        ),
        f.after_attempts(answers).0.current_v() == f.current_v() + f.after_attempts(answers).1,
        f.after_attempts(answers).0.limit_v() == f.limit_v(),
    decreases answers.len(),
{
    broadcast use FewShotTimes::lemma_with_current;

    if answers.len() > 0 {
        law_few_shot_fires_within_quota(f, answers.drop_last());
    }
}

} // verus!
