//! Timer capabilities without a time context, and two prefabs that shape a timer:
//! a freeze switch and a quota of firings.
use vstd::prelude::*;

verus! {

/// A timer that can run out.
pub trait FlowingTimerReadonly {
    spec fn finished(&self) -> bool;

    /// Whether it has run out.
    fn is_finished(&self) -> (r: bool)
        ensures
            r == self.finished(),
    ;
}

/// A timer that can be restarted and run out at once.
pub trait FlowingTimer: FlowingTimerReadonly + Sized {
    spec fn restarted(&self) -> Self;

    spec fn finished_now(&self) -> Self;

    /// Starts again.
    fn restart(&mut self)
        ensures
            *final(self) == old(self).restarted(),
    ;

    /// Runs out at once.
    fn finish(&mut self)
        ensures
            *final(self) == old(self).finished_now(),
    ;
}

/// A timer that can be frozen.
pub trait FreezableTimerReadonly {
    spec fn frozen(&self) -> bool;

    /// Whether it is frozen.
    fn is_frozen(&self) -> (r: bool)
        ensures
            r == self.frozen(),
    ;
}

/// A timer that can be frozen and let run again.
pub trait FreezableTimer: FreezableTimerReadonly + Sized {
    spec fn after_freeze(&self) -> Self;

    spec fn after_resume(&self) -> Self;

    /// Freezes time.
    fn freeze(&mut self)
        ensures
            *final(self) == old(self).after_freeze(),
    ;

    /// Lets time run again.
    fn resume(&mut self)
        ensures
            *final(self) == old(self).after_resume(),
    ;
}

/// A timer that fires once per cycle.
pub trait CyclicalTimer: Sized {
    /// The timer after one attempt, and whether it fired.
    spec fn triggered(&self) -> (Self, bool);

    /// Fires once if it can.
    fn try_trigger_once(&mut self) -> (r: bool)
        ensures
            (*final(self), r) == old(self).triggered(),
    ;
}

/// A freeze switch for tick timers; not frozen at first.
#[derive(Clone, Debug)]
pub struct FreezableTickTag(bool);

impl Default for FreezableTickTag {
    fn default() -> (r: Self)
        ensures
            !r.frozen(),
    {
        FreezableTickTag(false)
    }
}

impl FreezableTimerReadonly for FreezableTickTag {
    closed spec fn frozen(&self) -> bool {
        self.0
    }

    fn is_frozen(&self) -> bool {
        self.0
    }
}

impl FreezableTimer for FreezableTickTag {
    closed spec fn after_freeze(&self) -> Self {
        FreezableTickTag(true)
    }

    closed spec fn after_resume(&self) -> Self {
        FreezableTickTag(false)
    }

    fn freeze(&mut self) {
        self.0 = true;
    }

    fn resume(&mut self) {
        self.0 = false;
    }
}

impl FreezableTickTag {
    /// Freezing freezes and resuming unfreezes.
    pub broadcast proof fn lemma_freeze_resume(t: FreezableTickTag)
        ensures
            (#[trigger] t.after_freeze()).frozen(),
            !(#[trigger] t.after_resume()).frozen(),
    {
    }
}

/// A quota of firings.
#[derive(Clone, Debug)]
pub struct FewShotCycleTag {
    value: u32,
    limit: u32,
}

impl FewShotCycleTag {
    /// Firings used.
    pub closed spec fn value_v(&self) -> u32 {
        self.value
    }

    /// The quota.
    pub closed spec fn limit_v(&self) -> u32 {
        self.limit
    }

    /// A quota of `limit` firings, none used.
    pub fn new(limit: u32) -> (r: FewShotCycleTag)
        ensures
            r.value_v() == 0,
            r.limit_v() == limit,
    {
        FewShotCycleTag { value: 0, limit }
    }

    /// The readings of the quota after an operation.
    pub broadcast proof fn lemma_ops(t: FewShotCycleTag)
        ensures
            (#[trigger] t.restarted()).value_v() == 0,
            t.restarted().limit_v() == t.limit_v(),
            (#[trigger] t.finished_now()).value_v() == t.limit_v(),
            t.finished_now().limit_v() == t.limit_v(),
            (#[trigger] t.triggered()).0.limit_v() == t.limit_v(),
            t.triggered().1 == (t.value_v() < t.limit_v()),
            t.triggered().0.value_v() == if t.value_v() < t.limit_v() {
                (t.value_v() + 1) as u32
            } else {
                t.value_v()
            },
            t.finished() == (t.value_v() >= t.limit_v()),
    {
    }
}

/// What to do to a flowing timer and the quota in front of it.
#[derive(Clone, Copy, Debug, PartialEq, Eq, Structural)]
pub enum FlowingControlOp {
    /// Start both again.
    Restart,
    /// Run both out at once.
    Finish,
}

impl FewShotCycleTag {
    /// Restarts, or runs out, both `t` and the quota in front of it.
    pub fn of_flowing_timer<T: FlowingTimer>(&mut self, t: &mut T, op: FlowingControlOp)
        ensures
            op == FlowingControlOp::Restart ==> *final(self) == old(self).restarted()
                && *final(t) == old(t).restarted(),
            op == FlowingControlOp::Finish ==> *final(self) == old(self).finished_now()
                && *final(t) == old(t).finished_now(),
    {
        match op {
            FlowingControlOp::Restart => {
                t.restart();
                self.restart();
            },
            FlowingControlOp::Finish => {
                t.finish();
                self.finish();
            },
        }
    }

    /// Fires when `t` fires and quota is left, using one unit of quota then.
    ///
    /// `t` is asked first. When it fires but the quota is used up, its cycle is
    /// consumed and the firing dropped; as the quota only shrinks until a restart
    /// (which restarts both), nothing needs to be undone. When `t` does not fire,
    /// the quota is not asked.
    pub fn of_cyclical_timer<T: CyclicalTimer>(&mut self, t: &mut T) -> (r: bool)
        ensures
            *final(t) == old(t).triggered().0,
            old(t).triggered().1 ==> (*final(self), r) == old(self).triggered(),
            !old(t).triggered().1 ==> *final(self) == *old(self) && !r,
    {
        t.try_trigger_once() && self.try_trigger_once()
    }
}

impl FlowingTimerReadonly for FewShotCycleTag {
    closed spec fn finished(&self) -> bool {
        self.value >= self.limit
    }

    fn is_finished(&self) -> bool {
        self.value >= self.limit
    }
}

impl FlowingTimer for FewShotCycleTag {
    closed spec fn restarted(&self) -> Self {
        FewShotCycleTag { value: 0, limit: self.limit }
    }

    closed spec fn finished_now(&self) -> Self {
        FewShotCycleTag { value: self.limit, limit: self.limit }
    }

    fn restart(&mut self) {
        self.value = 0;
    }

    fn finish(&mut self) {
        self.value = self.limit;
    }
}

impl CyclicalTimer for FewShotCycleTag {
    /// Fires while quota is left, using one unit.
    closed spec fn triggered(&self) -> (Self, bool) {
        if self.value >= self.limit {
            (*self, false)
        } else {
            (FewShotCycleTag { value: (self.value + 1) as u32, limit: self.limit }, true)
        }
    }

    fn try_trigger_once(&mut self) -> bool {
        if self.is_finished() {
            false
        } else {
            self.value = self.value + 1;
            true
        }
    }
}

/// From a restart, a quota of `limit` fires exactly `limit` times in a row and is
/// then finished; further attempts fail.
pub proof fn law_quota_fires_limit_times(t: FewShotCycleTag, k: nat)
    requires
        k <= t.limit_v(),
    ensures
        fire_n(t.restarted(), k).value_v() == k,
        fire_n(t.restarted(), k).limit_v() == t.limit_v(),
        k == t.limit_v() ==> fire_n(t.restarted(), k).finished(),
        k == t.limit_v() ==> !fire_n(t.restarted(), k).triggered().1,
        k < t.limit_v() ==> fire_n(t.restarted(), k).triggered().1,
    decreases k,
{
    broadcast use FewShotCycleTag::lemma_ops;

    if k > 0 {
        law_quota_fires_limit_times(t, (k - 1) as nat);
    }
}

/// The quota after `k` firing attempts.
pub open spec fn fire_n(t: FewShotCycleTag, k: nat) -> FewShotCycleTag
    decreases k,
{
    if k == 0 {
        t
    } else {
        fire_n(t, (k - 1) as nat).triggered().0
    }
}

} // verus!
