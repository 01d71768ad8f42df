//! Per-frame systems over effect containers: expiry, hole compaction and timeline
//! resets.
use vstd::prelude::*;
use crate::base_lib::cores::design_patterns::DependCtx;
use crate::base_lib::cores::slots::{
    holes_where, lemma_live_in_slots, lemma_live_index_value, live_index, live_of,
};
use crate::base_lib::cores::timers::static_timer::{StaticTimeline, StaticTimer};
use crate::base_lib::cores::timers::tiny_timer::{HasTimer, TimerView};
use crate::base_lib::cores::unify_types::time_type;
use crate::base_lib::eff_attr_prop::upsert_container::{
    Upsert, UpsertContainer, UpsertContainerCleaner,
};

verus! {

/// Whether the timer of `e` has run out at `ctx`.
pub open spec fn expired_at<'a, E, C>(e: E, ctx: C) -> bool where
    E: HasTimer,
    E::Timer: TimerView,
    E::Timer: DependCtx<Ctx<'a> = C>,
 {
    e.timer().completed_at(ctx)
}

/// `s` without the elements whose timers have run out at `ctx`, the others in order.
pub open spec fn unexpired<'a, E, C>(s: Seq<E>, ctx: C) -> Seq<E> where
    E: HasTimer,
    E::Timer: TimerView,
    E::Timer: DependCtx<Ctx<'a> = C>,
 {
    s.filter(|e: E| !expired_at(e, ctx))
}

/// Ages out the elements: removes every element whose timer has run out at `ctx`,
/// keeping the others in order, and marks the container changed when it removed any.
pub fn clean_expired_element<'a, E, C: Copy>(ll: &mut UpsertContainer<E>, ctx: C) where
    E: Upsert + HasTimer,
    E::Timer: TimerView,
    E::Timer: DependCtx<Ctx<'a> = C>,

    requires
        old(ll).wf(),
    ensures
        final(ll).wf(),
        final(ll).live() == unexpired(old(ll).live(), ctx),
        final(ll).slots() == holes_where(old(ll).slots(), |e: E| expired_at(e, ctx)),
        final(ll).changed() == (old(ll).changed() || exists|k: int|
            0 <= k < old(ll).live().len() && expired_at(#[trigger] old(ll).live()[k], ctx)),
{
    let expired = |ele: &E| -> (r: bool)
        ensures
            r == ele.timer().completed_at(ctx),
        { ele.get_timer().is_completed(ctx) };
    let ghost s = ll.slots();
    let ghost marked = |e: E| expired_at(e, ctx);
    let any = ll.delete_all_ele(expired, Ghost(marked));
    proof {
        assert(ll.live() == unexpired(old(ll).live(), ctx)) by {
            assert((|e: E| !marked(e)) =~= (|e: E| !expired_at(e, ctx)));
        }
        let live = live_of(s);
        if any {
            let j = choose|j: int| 0 <= j < s.len() && (#[trigger] s[j]) is Some && marked(s[j].unwrap());
            lemma_live_index_value(s, j);
            assert(expired_at(live[live_index(s, j)], ctx));
        } else {
            assert forall|k: int| 0 <= k < live.len() implies !expired_at(#[trigger] live[k], ctx) by {
                lemma_live_in_slots(s, k);
                let j = choose|j: int| 0 <= j < s.len() && #[trigger] s[j] == Some(live_of(s)[k]);
                assert(s[j] is Some);
            }
        }
    }
}

/// The lazy half of refreshing an attribute from its effects: when the effects
/// changed since the last refresh, clears the mark and hands them out, in order, so
/// that the attribute can be refreshed from them; otherwise hands out nothing and
/// changes nothing.
pub fn take_changed_effects<'a, E: Upsert>(effs: &'a mut UpsertContainer<E>) -> (r: Option<
    Vec<&'a E>,
>)
    requires
        old(effs).wf(),
    ensures
        final(effs).wf(),
        final(effs).slots() == old(effs).slots(),
        !final(effs).changed(),
        old(effs).changed() ==> (r matches Some(v) && v@.len() == old(effs).live().len()
            && forall|k: int| 0 <= k < v@.len() ==> *v@[k] == old(effs).live()[k]),
        !old(effs).changed() ==> r is None,
{
    if effs.is_changed() {
        effs.reset_changed_flag();
        Some(effs.iter_ele())
    } else {
        None
    }
}

/// Compacts the holes of every container, once `cleaner` has accumulated more than
/// the default refresh period: each container is left as its own `try_clean_hole`
/// leaves it. Housekeeping only: no container's elements change.
pub fn try_clean_hole<E: Upsert>(
    delta: time_type::T,
    ll: &mut Vec<UpsertContainer<E>>,
    cleaner: &mut UpsertContainerCleaner,
)
    requires
        forall|k: int| 0 <= k < old(ll)@.len() ==> (#[trigger] old(ll)@[k]).wf(),
    ensures
        final(ll)@.len() == old(ll)@.len(),
        forall|k: int|
            0 <= k < old(ll)@.len() ==> (#[trigger] final(ll)@[k]).wf() && final(ll)@[k].live()
                == old(ll)@[k].live() && final(ll)@[k].changed() == old(ll)@[k].changed(),
        time_type::sat_add(old(cleaner).accumulated(), delta) > time_type::DEFAULT_REFRESH_PERIOD
            ==> final(cleaner).accumulated() == 0 && forall|k: int|
            0 <= k < old(ll)@.len() ==> (#[trigger] final(ll)@[k]).slots()
                == UpsertContainer::<E>::compacted(old(ll)@[k].slots()),
        time_type::sat_add(old(cleaner).accumulated(), delta) <= time_type::DEFAULT_REFRESH_PERIOD
            ==> final(cleaner).accumulated() == time_type::sat_add(
            old(cleaner).accumulated(),
            delta,
        ) && final(ll)@ == old(ll)@,
{
    let should_clean_period = time_type::DEFAULT_REFRESH_PERIOD;
    let should_clean_hole = cleaner.should_clean_hole(delta, should_clean_period);
    if should_clean_hole {
        let ghost orig = ll@;
        let n = ll.len();
        let mut i: usize = 0;
        while i < n
            invariant
                i <= n,
                ll@.len() == n,
                orig.len() == n,
                cleaner.accumulated() == 0,
                forall|k: int| i <= k < n ==> ll@[k] == orig[k],
                forall|k: int| 0 <= k < n ==> (#[trigger] orig[k]).wf(),
                forall|k: int|
                    0 <= k < i ==> (#[trigger] ll@[k]).wf() && ll@[k].live() == orig[k].live()
                        && ll@[k].changed() == orig[k].changed() && ll@[k].slots()
                        == UpsertContainer::<E>::compacted(orig[k].slots()),
            decreases n - i,
        {
            proof {
                assert(ll@[i as int] == orig[i as int]);
                assert(orig[i as int].wf());
            }
            cleaner.do_clean_hole(&mut ll[i]);
            i = i + 1;
        }
    }
}

/// Resets the timeline once it has run for a year, and shifts every timer by the
/// same amount so that their readings are kept. (With millisecond integer time this
/// is rarely needed.)
pub fn try_reset_timeline(timeline: &mut StaticTimeline, timers: &mut Vec<StaticTimer>)
    ensures
        final(timers)@.len() == old(timers)@.len(),
        old(timeline).now() >= time_type::RESET_TIMELINE_PERIOD ==> final(timeline).now() == 0
            && forall|k: int|
            0 <= k < old(timers)@.len() ==> #[trigger] final(timers)@[k] == old(
                timers,
            )@[k].shifted(old(timeline).now()),
        old(timeline).now() < time_type::RESET_TIMELINE_PERIOD ==> *final(timeline) == *old(
            timeline,
        ) && final(timers)@ == old(timers)@,
        final(timeline).0.duration_v() == old(timeline).0.duration_v(),
{
    let should_reset_timeline = timeline.current_time() >= time_type::RESET_TIMELINE_PERIOD;
    if should_reset_timeline {
        let diff = timeline.reset_timeline_and_get_diff();
        let ghost orig = timers@;
        let n = timers.len();
        let mut i: usize = 0;
        while i < n
            invariant
                i <= n,
                timers@.len() == n,
                orig.len() == n,
                forall|k: int| i <= k < n ==> timers@[k] == orig[k],
                forall|k: int| 0 <= k < i ==> #[trigger] timers@[k] == orig[k].shifted(diff),
            decreases n - i,
        {
            timers[i].fix_timeline_diff(diff);
            i = i + 1;
        }
    }
}

} // verus!
