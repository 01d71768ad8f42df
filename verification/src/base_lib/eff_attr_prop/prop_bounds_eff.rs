//! Effects on the bounds of a property (the upper and lower limits of health, say).
use vstd::prelude::*;
use crate::base_lib::eff_attr_prop::attr_eff::AttrEffectType;

verus! {

/// The kind of an effect on a property's bounds.
#[derive(Clone, Copy, Debug, PartialEq, Eq, Hash, Structural)]
pub enum PropBoundsEffectType {
    UpperAdd,
    UpperPer,
    LowerAdd,
}

/// The bound an effect changes.
#[derive(Clone, Copy, Debug, PartialEq, Eq, Hash, Structural)]
pub enum PropBoundsEffectTarget {
    Upper,
    Lower,
}

/// The bound that an effect of kind `t` changes, and the attribute effect kind it
/// is on that bound. Bounds change on their base value only, so that a matching
/// change of the current value stays in step.
pub open spec fn bounds_effect_of(t: PropBoundsEffectType) -> (PropBoundsEffectTarget, AttrEffectType) {
    match t {
        PropBoundsEffectType::UpperAdd => (PropBoundsEffectTarget::Upper, AttrEffectType::BasicAdd),
        PropBoundsEffectType::UpperPer => (PropBoundsEffectTarget::Upper, AttrEffectType::BasicPer),
        PropBoundsEffectType::LowerAdd => (PropBoundsEffectTarget::Lower, AttrEffectType::BasicAdd),
    }
}

impl PropBoundsEffectType {
    /// The bound this kind changes and the attribute effect kind it is there.
    pub fn target_and_type(&self) -> (r: (PropBoundsEffectTarget, AttrEffectType))
        ensures
            r == bounds_effect_of(*self),
    {
        match self {
            PropBoundsEffectType::UpperAdd => (
                PropBoundsEffectTarget::Upper,
                AttrEffectType::BasicAdd,
            ),
            PropBoundsEffectType::UpperPer => (
                PropBoundsEffectTarget::Upper,
                AttrEffectType::BasicPer,
            ),
            PropBoundsEffectType::LowerAdd => (
                PropBoundsEffectTarget::Lower,
                AttrEffectType::BasicAdd,
            ),
        }
    }

    /// Whether an effect of this kind comes with a matching change of the current
    /// value: changes of the upper bound do; the lower bound works through clamping.
    pub fn has_alter_effect(&self) -> (r: bool)
        ensures
            r == (bounds_effect_of(*self).0 == PropBoundsEffectTarget::Upper),
    {
        match self {
            PropBoundsEffectType::UpperAdd => true,
            PropBoundsEffectType::UpperPer => true,
            PropBoundsEffectType::LowerAdd => false,
        }
    }
}

} // verus!
