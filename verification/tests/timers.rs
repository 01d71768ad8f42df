use rust_engine_frame::base_lib::cores::timers::few_shot_times::{FewShotTimes, TimerControlOp};
use rust_engine_frame::base_lib::cores::timers::pause_prefab::{PauseControlOp, PausePrefab};
use rust_engine_frame::base_lib::cores::timers::static_timer::{StaticTimeline, StaticTimer};
use rust_engine_frame::base_lib::cores::timers::static_trigger::{
    FewShotStaticTrigger, InfiniteStaticTrigger,
};
use rust_engine_frame::base_lib::cores::timers::tick_timer::TickTimer;
use rust_engine_frame::base_lib::cores::timers::tick_trigger::{
    FewShotTickTrigger, InfiniteTickTrigger,
};
use rust_engine_frame::base_lib::cores::timers::tiny_timer::{
    CyclicalTrigger, Tickable, TimerControl, TimerPauseControl, TimerPauseView, TimerProgress,
    TimerView,
};
use rust_engine_frame::base_lib::cores::unify_types::time_type;

/// Progress of a tick timer: elapsed over duration.
fn tick_progress(elapsed: u64, duration: u64) -> f64 {
    elapsed as f64 / duration as f64
}

/// Progress of a static timer: one minus remaining over duration.
fn static_progress(remaining: u64, duration: u64) -> f64 {
    1.0 - remaining as f64 / duration as f64
}

#[test]
fn few_shot_limited_trigger_drops_overflow() {
    let mut few_shot = FewShotTimes::new(2);
    let mut trigger = InfiniteTickTrigger::new(time_type::unit::<3>());

    trigger.tick(time_type::unit::<3>());
    assert!(few_shot.of_cyclical_trigger(&mut trigger, ()));
    trigger.tick(time_type::unit::<3>());
    assert!(few_shot.of_cyclical_trigger(&mut trigger, ()));
    assert!(few_shot.of_timer_view(&trigger).is_completed(()));

    trigger.tick(time_type::unit::<3>());
    assert!(!few_shot.of_cyclical_trigger(&mut trigger, ()));
    assert_eq!(trigger.elapsed(()), time_type::ZERO);
}

#[test]
fn few_shot_distinguishes_not_time_from_exhausted() {
    let mut few_shot = FewShotTimes::new(1);
    let mut trigger = InfiniteTickTrigger::new(time_type::unit::<3>());

    trigger.tick(time_type::unit::<2>());
    assert!(!few_shot.of_cyclical_trigger(&mut trigger, ()));
    assert_eq!(trigger.elapsed(()), time_type::unit::<2>());

    trigger.tick(time_type::unit::<1>());
    assert!(few_shot.of_cyclical_trigger(&mut trigger, ()));
    assert!(few_shot.of_timer_view(&trigger).is_completed(()));
    trigger.tick(time_type::unit::<3>());
    assert!(!few_shot.of_cyclical_trigger(&mut trigger, ()));
    assert_eq!(trigger.elapsed(()), time_type::ZERO);
}

#[test]
fn infinite_trigger_initial_state() {
    let t = InfiniteTickTrigger::new(time_type::unit::<3>());
    assert_eq!(t.elapsed(()), time_type::ZERO);
    assert_eq!(t.remaining(()), time_type::unit::<3>());
    assert_eq!(t.duration(()), time_type::unit::<3>());
    assert_eq!(tick_progress(t.elapsed(()), t.duration(())), 0.0 / 3.0);
    assert!(!t.is_completed(()));
}

#[test]
fn infinite_trigger_try_trigger_consumes_cycle() {
    let mut t = InfiniteTickTrigger::new(time_type::unit::<3>());
    t.tick(time_type::unit::<2>());
    assert!(!t.try_trigger_once(()));
    assert_eq!(t.elapsed(()), time_type::unit::<2>());

    t.tick(time_type::unit::<2>());
    assert_eq!(t.elapsed(()), time_type::unit::<4>());
    assert!(t.try_trigger_once(()));
    assert_eq!(t.elapsed(()), time_type::unit::<1>());
}

#[test]
fn infinite_trigger_ticks_without_clamp() {
    let mut t = InfiniteTickTrigger::new(time_type::unit::<3>());
    t.tick(time_type::unit::<2>());
    t.tick(time_type::unit::<2>());
    assert_eq!(t.elapsed(()), time_type::unit::<4>());
    assert_eq!(tick_progress(t.elapsed(()), t.duration(())), 4.0 / 3.0);
}

#[test]
fn infinite_trigger_reset_and_complete_noop() {
    let mut t = InfiniteTickTrigger::new(time_type::unit::<3>());
    t.tick(time_type::unit::<2>());
    t.reset(());
    assert_eq!(t.elapsed(()), time_type::ZERO);

    t.tick(time_type::unit::<2>());
    t.complete(());
    assert_eq!(t.elapsed(()), time_type::unit::<2>());
    assert!(!t.is_completed(()));
}

#[test]
fn tick_timer_initial_state() {
    let t = TickTimer::new(time_type::unit::<5>());
    assert_eq!(t.elapsed(()), time_type::ZERO);
    assert_eq!(t.remaining(()), time_type::unit::<5>());
    assert_eq!(t.duration(()), time_type::unit::<5>());
    assert_eq!(tick_progress(t.elapsed(()), t.duration(())), 0.0 / 5.0);
    assert!(!t.is_completed(()));
}

#[test]
fn tick_timer_accumulates_and_clamps_at_duration() {
    let mut t = TickTimer::new(time_type::unit::<5>());
    t.tick(time_type::unit::<2>());
    assert_eq!(t.elapsed(()), time_type::unit::<2>());
    assert_eq!(t.remaining(()), time_type::unit::<3>());
    assert!(!t.is_completed(()));

    t.tick(time_type::unit::<3>());
    assert_eq!(t.elapsed(()), time_type::unit::<5>());
    assert_eq!(t.remaining(()), time_type::ZERO);
    assert!(t.is_completed(()));

    t.tick(time_type::unit::<10>());
    assert_eq!(t.elapsed(()), time_type::unit::<5>());
    assert_eq!(tick_progress(t.elapsed(()), t.duration(())), 5.0 / 5.0);
}

#[test]
fn tick_timer_progress_ratio() {
    let mut t = TickTimer::new(time_type::unit::<5>());
    t.tick(time_type::unit::<2>());
    assert_eq!(tick_progress(t.elapsed(()), t.duration(())), 2.0 / 5.0);
    t.tick(time_type::unit::<1>());
    assert_eq!(tick_progress(t.elapsed(()), t.duration(())), 3.0 / 5.0);
}

#[test]
fn tick_timer_reset_and_complete() {
    let mut t = TickTimer::new(time_type::unit::<5>());
    t.tick(time_type::unit::<2>());

    t.reset(());
    assert_eq!(t.elapsed(()), time_type::ZERO);
    assert!(!t.is_completed(()));

    t.complete(());
    assert!(t.is_completed(()));
    assert_eq!(t.elapsed(()), time_type::unit::<5>());
    assert_eq!(t.remaining(()), time_type::ZERO);
}

#[test]
fn tick_timer_infinite_never_completes() {
    let mut t = TickTimer::inf();
    t.tick(time_type::unit::<3>());
    assert_eq!(t.elapsed(()), time_type::unit::<3>());
    assert!(!t.is_completed(()));
}

#[test]
fn static_timer_initial_state() {
    let timeline = StaticTimeline::new();
    let t = StaticTimer::new(&timeline, time_type::unit::<5>());
    assert_eq!(t.elapsed(&timeline), time_type::ZERO);
    assert_eq!(t.remaining(&timeline), time_type::unit::<5>());
    assert_eq!(t.duration(&timeline), time_type::unit::<5>());
    assert_eq!(static_progress(t.remaining(&timeline), t.duration(&timeline)), 0.0 / 5.0);
    assert!(!t.is_completed(&timeline));
}

#[test]
fn static_timer_tracks_timeline_progress() {
    let mut timeline = StaticTimeline::new();
    let t = StaticTimer::new(&timeline, time_type::unit::<5>());

    timeline.0.tick(time_type::unit::<2>());
    assert_eq!(t.elapsed(&timeline), time_type::unit::<2>());
    assert_eq!(t.remaining(&timeline), time_type::unit::<3>());
    assert!(!t.is_completed(&timeline));

    timeline.0.tick(time_type::unit::<3>());
    assert!(t.is_completed(&timeline));
    assert_eq!(t.remaining(&timeline), time_type::ZERO);
    assert_eq!(static_progress(t.remaining(&timeline), t.duration(&timeline)), 5.0 / 5.0);
}

#[test]
fn static_timer_reset_and_complete() {
    let mut timeline = StaticTimeline::new();
    let mut t = StaticTimer::new(&timeline, time_type::unit::<5>());
    timeline.0.tick(time_type::unit::<2>());

    t.reset(&timeline);
    assert_eq!(t.remaining(&timeline), time_type::unit::<5>());
    assert!(!t.is_completed(&timeline));

    t.complete(&timeline);
    assert!(t.is_completed(&timeline));
    assert_eq!(t.remaining(&timeline), time_type::ZERO);
    assert_eq!(t.elapsed(&timeline), time_type::unit::<5>());
}

#[test]
fn static_timer_fix_timeline_diff_preserves_relative_readings() {
    let mut timeline = StaticTimeline::new();
    timeline.0.tick(time_type::unit::<100>());

    let mut t = StaticTimer::new(&timeline, time_type::unit::<200>());
    timeline.0.tick(time_type::unit::<50>());

    let elapsed_before = t.elapsed(&timeline);
    let remaining_before = t.remaining(&timeline);
    assert_eq!(elapsed_before, time_type::unit::<50>());
    assert_eq!(remaining_before, time_type::unit::<150>());

    let diff = timeline.reset_timeline_and_get_diff();
    assert_eq!(diff, time_type::unit::<150>());
    assert_eq!(timeline.current_time(), time_type::ZERO);

    t.fix_timeline_diff(diff);
    assert_eq!(t.elapsed(&timeline), elapsed_before);
    assert_eq!(t.remaining(&timeline), remaining_before);
    assert_eq!(static_progress(t.remaining(&timeline), t.duration(&timeline)), 50.0 / 200.0);
}

#[test]
fn static_timer_infinite_never_completes() {
    let mut timeline = StaticTimeline::new();
    let t = StaticTimer::inf();
    timeline.0.tick(time_type::unit::<3>());
    assert!(!t.is_completed(&timeline));
}

#[test]
fn static_timer_completes_in_the_frame_after_reaching_duration() {
    let mut timeline = StaticTimeline::new();
    let t = StaticTimer::new(&timeline, time_type::unit::<1>());
    assert!(!t.is_completed(&timeline));
    timeline.0.tick(time_type::unit::<1>());
    assert!(t.is_completed(&timeline));
}

#[test]
fn few_shot_static_trigger_progress_delegates_and_completion_from_quota() {
    let mut timeline = StaticTimeline::new();
    let mut t = FewShotStaticTrigger::new(&timeline, time_type::unit::<3>(), 2);

    assert_eq!(t.elapsed(&timeline), time_type::ZERO);
    assert_eq!(t.remaining(&timeline), time_type::unit::<3>());
    assert_eq!(t.duration(&timeline), time_type::unit::<3>());
    assert!(!t.is_completed(&timeline));

    timeline.0.tick(time_type::unit::<2>());
    assert_eq!(t.elapsed(&timeline), time_type::unit::<2>());
    assert_eq!(t.remaining(&timeline), time_type::unit::<1>());
    assert_eq!(
        static_progress(t.remaining(&timeline), t.duration(&timeline)),
        1.0 - 1.0 / 3.0
    );
    assert!(!t.is_completed(&timeline));

    timeline.0.tick(time_type::unit::<1>());
    assert!(t.try_trigger_once(&timeline));
    assert_eq!(t.elapsed(&timeline), time_type::ZERO);
    assert!(!t.is_completed(&timeline));

    timeline.0.tick(time_type::unit::<3>());
    assert!(t.try_trigger_once(&timeline));
    assert!(t.is_completed(&timeline));
    assert!(!t.inf_tg.is_completed(&timeline));
}

#[test]
fn pause_prefab_freezes_tick_while_paused() {
    let mut pause = PausePrefab::new();
    let mut timer = TickTimer::new(time_type::unit::<5>());

    assert!(!pause.is_paused());

    pause.of_tickable(&mut timer, time_type::unit::<2>());
    assert_eq!(timer.elapsed(()), time_type::unit::<2>());

    pause.pause();
    assert!(pause.is_paused());
    pause.of_tickable(&mut timer, time_type::unit::<2>());
    assert_eq!(timer.elapsed(()), time_type::unit::<2>());

    pause.resume();
    assert!(!pause.is_paused());
    pause.of_tickable(&mut timer, time_type::unit::<1>());
    assert_eq!(timer.elapsed(()), time_type::unit::<3>());
}

#[test]
fn pause_prefab_view_control_and_progress_delegate() {
    let mut pause = PausePrefab::new();
    let mut timer = TickTimer::new(time_type::unit::<5>());

    pause.of_tickable(&mut timer, time_type::unit::<2>());

    assert_eq!(pause.of_timer_progress(&timer).elapsed(()), time_type::unit::<2>());

    pause.of_timer_pause_control(&timer, PauseControlOp::Pause);
    assert!(pause.of_timer_pause_view(&timer).is_paused());
    pause.of_timer_pause_control(&timer, PauseControlOp::Resume);
    assert!(!pause.of_timer_pause_view(&timer).is_paused());
}

#[test]
fn pause_prefab_passes_control_and_triggers_through() {
    let pause = PausePrefab::new();
    let mut timer = TickTimer::new(time_type::unit::<5>());
    pause.of_timer_control(&mut timer, (), TimerControlOp::Complete);
    assert!(pause.of_timer_view(&timer).is_completed(()));
    pause.of_timer_control(&mut timer, (), TimerControlOp::Reset);
    assert_eq!(timer.elapsed(()), time_type::ZERO);

    let mut trigger = InfiniteTickTrigger::new(time_type::unit::<2>());
    trigger.tick(time_type::unit::<3>());
    assert!(pause.of_cyclical_trigger(&mut trigger, ()));
    assert_eq!(trigger.elapsed(()), time_type::unit::<1>());
}

#[test]
fn few_shot_quota_fires_exactly_limit_times() {
    let mut few_shot = FewShotTimes::new(3);
    let mut trigger = InfiniteTickTrigger::new(time_type::unit::<1>());
    let mut fired = 0;
    for _ in 0..10 {
        trigger.tick(time_type::unit::<1>());
        if few_shot.of_cyclical_trigger(&mut trigger, ()) {
            fired += 1;
        }
    }
    assert_eq!(fired, 3);
    assert!(few_shot.of_timer_view(&trigger).is_completed(()));
}

#[test]
fn few_shot_control_restarts_and_exhausts_quota() {
    let mut few_shot = FewShotTimes::new(1);
    let mut trigger = InfiniteTickTrigger::new(time_type::unit::<1>());
    few_shot.of_timer_control(&mut trigger, (), TimerControlOp::Complete);
    assert!(few_shot.of_timer_view(&trigger).is_completed(()));
    trigger.tick(time_type::unit::<2>());
    few_shot.of_timer_control(&mut trigger, (), TimerControlOp::Reset);
    assert!(!few_shot.of_timer_view(&trigger).is_completed(()));
    assert_eq!(trigger.elapsed(()), time_type::ZERO);
}

#[test]
fn few_shot_tick_trigger_fires_within_quota() {
    let mut t = FewShotTickTrigger::new(time_type::unit::<2>(), 2);
    t.tick(time_type::unit::<1>());
    assert!(!t.try_trigger_once(()));
    t.tick(time_type::unit::<1>());
    assert!(t.try_trigger_once(()));
    t.tick(time_type::unit::<2>());
    assert!(t.try_trigger_once(()));
    assert!(t.is_completed(()));
    t.tick(time_type::unit::<2>());
    assert!(!t.try_trigger_once(()));
    t.reset(());
    assert!(!t.is_completed(()));
    assert_eq!(t.elapsed(()), time_type::ZERO);
    t.complete(());
    assert!(t.is_completed(()));
}

#[test]
fn infinite_static_trigger_fires_every_cycle() {
    let mut timeline = StaticTimeline::new();
    let mut t = InfiniteStaticTrigger::new(&timeline, time_type::unit::<2>());
    timeline.0.tick(time_type::unit::<1>());
    assert!(!t.try_trigger_once(&timeline));
    timeline.0.tick(time_type::unit::<1>());
    assert!(t.try_trigger_once(&timeline));
    assert_eq!(t.remaining(&timeline), time_type::unit::<2>());
    assert!(!t.is_completed(&timeline));
}

#[test]
fn tick_timer_saturates_at_infinity() {
    let mut t = TickTimer::inf();
    t.tick(time_type::INFINITY);
    t.tick(time_type::unit::<1>());
    assert_eq!(t.elapsed(()), time_type::INFINITY);
    assert_eq!(time_type::plus(time_type::INFINITY, 1), time_type::INFINITY);
    assert_eq!(time_type::minus(1, 2), time_type::ZERO);
}

#[test]
fn time_units_are_milliseconds() {
    assert_eq!(time_type::unit::<1>(), 1000);
    assert_eq!(time_type::DEFAULT_REFRESH_PERIOD, time_type::unit::<5>());
    assert_eq!(time_type::RESET_TIMELINE_PERIOD, 365 * 24 * 3600 * time_type::unit::<1>());
}

#[test]
fn test_f64() {
    let number: f64 = 7.0;

    assert_eq!(number.min(f64::INFINITY), number);
    assert_eq!(number.min(f64::NAN), number);
    assert_eq!(number.max(f64::NAN), number);

    assert!(f64::INFINITY == f64::INFINITY);
    assert!(!(f64::INFINITY > f64::INFINITY));
    assert!(!(f64::INFINITY < f64::INFINITY));
    assert!(number != f64::NAN);
    assert!(!(number > f64::NAN));
    assert!(!(number < f64::NAN));

    assert_eq!(number + f64::INFINITY, f64::INFINITY);
    assert_eq!(number - f64::INFINITY, f64::NEG_INFINITY);
    assert_eq!(f64::INFINITY + f64::INFINITY, f64::INFINITY);
    assert!((f64::INFINITY - f64::INFINITY).is_nan());
    assert!((number + f64::NAN).is_nan());
    assert!((number - f64::NAN).is_nan());

    assert_eq!(number / f64::INFINITY, 0.0);
    assert_eq!(f64::INFINITY / number, f64::INFINITY);
    assert!((number / f64::NAN).is_nan());
    assert!((f64::NAN / number).is_nan());

    assert_eq!(number % f64::INFINITY, number);
    assert!((f64::INFINITY % number).is_nan());
    assert!((f64::NAN % number).is_nan());
    assert!((number % f64::NAN).is_nan());
}
