use rust_engine_frame::attrs::dyn_attr_effect::DynAttrEffectType;
use rust_engine_frame::attrs::dyn_prop_dur_effect::{DynPropDurEffectTarget, DynPropDurEffectType};
use rust_engine_frame::base_lib::cores::tiny_timer::{
    CyclicalTimer, FewShotCycleTag, FlowingControlOp, FlowingTimer, FlowingTimerReadonly,
    FreezableTickTag, FreezableTimer, FreezableTimerReadonly,
};
use rust_engine_frame::base_lib::eff_attr::upserts::upsert_system::replace;
use rust_engine_frame::base_lib::eff_attr_prop::attr_eff::AttrEffectType;
use rust_engine_frame::base_lib::eff_attr_prop::effects::EffectMean;
use rust_engine_frame::base_lib::eff_attr_prop::prop_bounds_eff::{
    PropBoundsEffectTarget, PropBoundsEffectType,
};

#[test]
fn prop_bounds_effect_type_targets() {
    assert_eq!(
        PropBoundsEffectType::UpperAdd.target_and_type(),
        (PropBoundsEffectTarget::Upper, AttrEffectType::BasicAdd)
    );
    assert_eq!(
        PropBoundsEffectType::UpperPer.target_and_type(),
        (PropBoundsEffectTarget::Upper, AttrEffectType::BasicPer)
    );
    assert_eq!(
        PropBoundsEffectType::LowerAdd.target_and_type(),
        (PropBoundsEffectTarget::Lower, AttrEffectType::BasicAdd)
    );
    assert!(PropBoundsEffectType::UpperAdd.has_alter_effect());
    assert!(PropBoundsEffectType::UpperPer.has_alter_effect());
    assert!(!PropBoundsEffectType::LowerAdd.has_alter_effect());
}

#[test]
fn dyn_prop_dur_effect_type_targets() {
    assert!(matches!(
        DynPropDurEffectType::MaxVal.convert_attr_effect_type(),
        (DynPropDurEffectTarget::ForMax, DynAttrEffectType::BasicAdd)
    ));
    assert!(matches!(
        DynPropDurEffectType::MaxPer.convert_attr_effect_type(),
        (DynPropDurEffectTarget::ForMax, DynAttrEffectType::BasicPercent)
    ));
    assert!(matches!(
        DynPropDurEffectType::MinVal.convert_attr_effect_type(),
        (DynPropDurEffectTarget::ForMin, DynAttrEffectType::BasicAdd)
    ));
    assert!(DynPropDurEffectType::MaxPer.raises_current_with_max());
    assert!(!DynPropDurEffectType::MinVal.raises_current_with_max());
}

#[test]
fn prop_effect_mean_by_baseline() {
    assert!(EffectMean::which_nature(2.0, 0.0).is_buff());
    assert!(EffectMean::which_nature(-2.0, 0.0).is_debuff());
    assert!(EffectMean::which_nature(1.0, 1.0).is_neutral());
    assert!(!EffectMean::which_nature(1.0, 1.0).is_buff());
}

#[test]
fn replace_puts_the_new_value() {
    let mut a = 1;
    replace(&mut a, 5);
    assert_eq!(a, 5);
}

#[test]
fn freezable_tag_freezes_and_resumes() {
    let mut tag = FreezableTickTag::default();
    assert!(!tag.is_frozen());
    tag.freeze();
    assert!(tag.is_frozen());
    tag.resume();
    assert!(!tag.is_frozen());
}

#[test]
fn few_shot_cycle_tag_fires_limit_times() {
    let mut tag = FewShotCycleTag::new(2);
    assert!(!tag.is_finished());
    assert!(tag.try_trigger_once());
    assert!(tag.try_trigger_once());
    assert!(!tag.try_trigger_once());
    assert!(tag.is_finished());
    tag.restart();
    assert!(!tag.is_finished());
    tag.finish();
    assert!(tag.is_finished());
}

#[test]
fn few_shot_cycle_tag_limits_another_cyclical_timer() {
    let mut timer = FewShotCycleTag::new(10);
    let mut tag = FewShotCycleTag::new(1);
    assert!(tag.of_cyclical_timer(&mut timer));
    assert!(!tag.of_cyclical_timer(&mut timer));
    assert!(tag.is_finished());

    tag.of_flowing_timer(&mut timer, FlowingControlOp::Restart);
    assert!(!tag.is_finished());
    assert!(!timer.is_finished());

    let mut empty = FewShotCycleTag::new(0);
    let mut tag = FewShotCycleTag::new(3);
    assert!(!tag.of_cyclical_timer(&mut empty));
    tag.of_flowing_timer(&mut empty, FlowingControlOp::Finish);
    assert!(tag.is_finished());
    assert!(empty.is_finished());
}
