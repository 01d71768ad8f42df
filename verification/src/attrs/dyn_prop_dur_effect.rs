//! Kinds of lasting effect on a property, and how they map onto attribute effects.
use vstd::prelude::*;
use crate::attrs::dyn_attr_effect::DynAttrEffectType;

verus! {

/// The bound of a property that a lasting effect changes.
#[derive(Clone, Copy, Debug, PartialEq, Eq, Structural)]
pub enum DynPropDurEffectTarget {
    /// The maximum.
    ForMax,
    /// The minimum.
    ForMin,
}

/// The kind of a lasting property effect.
///
/// To raise the maximum and the current value together, give both a lasting and an
/// instant effect: a change of the maximum works on its base value only, so the
/// amount is absolute.
#[derive(Clone, Copy, Debug, PartialEq, Eq, Structural)]
pub enum DynPropDurEffectType {
    /// Changes the maximum by a value.
    MaxVal,
    /// Changes the maximum by a percentage.
    MaxPer,
    /// Changes the minimum by a value.
    MinVal,
}

/// The bound that a lasting effect of kind `t` changes, and the attribute effect
/// kind it becomes on that bound.
pub open spec fn attr_effect_of(t: DynPropDurEffectType) -> (
    DynPropDurEffectTarget,
    DynAttrEffectType,
) {
    match t {
        DynPropDurEffectType::MaxVal => (DynPropDurEffectTarget::ForMax, DynAttrEffectType::BasicAdd),
        DynPropDurEffectType::MaxPer => (
            DynPropDurEffectTarget::ForMax,
            DynAttrEffectType::BasicPercent,
        ),
        DynPropDurEffectType::MinVal => (DynPropDurEffectTarget::ForMin, DynAttrEffectType::BasicAdd),
    }
}

impl DynPropDurEffectType {
    /// The bound this kind changes and the attribute effect kind it becomes there.
    pub fn convert_attr_effect_type(&self) -> (r: (DynPropDurEffectTarget, DynAttrEffectType))
        ensures
            r == attr_effect_of(*self),
    {
        match self {
            DynPropDurEffectType::MaxVal => (
                DynPropDurEffectTarget::ForMax,
                DynAttrEffectType::BasicAdd,
            ),
            DynPropDurEffectType::MaxPer => (
                DynPropDurEffectTarget::ForMax,
                DynAttrEffectType::BasicPercent,
            ),
            DynPropDurEffectType::MinVal => (
                DynPropDurEffectTarget::ForMin,
                DynAttrEffectType::BasicAdd,
            ),
        }
    }

    /// Whether an effect of this kind carries over to the current value when it
    /// raises the maximum: changes of the maximum do, changes of the minimum do not.
    pub fn raises_current_with_max(&self) -> (r: bool)
        ensures
            r == (attr_effect_of(*self).0 == DynPropDurEffectTarget::ForMax),
    {
        match self {
            DynPropDurEffectType::MaxVal => true,
            DynPropDurEffectType::MaxPer => true,
            DynPropDurEffectType::MinVal => false,
        }
    }
}

} // verus!
