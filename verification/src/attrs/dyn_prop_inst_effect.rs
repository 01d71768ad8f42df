//! Kinds of instant effect on a property.
use vstd::prelude::*;

verus! {

/// The kind of an instant property effect.
#[derive(Clone, Copy, Debug, PartialEq, Eq, Structural)]
pub enum DynPropInstEffectType {
    /// Changes the current value by the effect value.
    CurVal,
    /// Changes the current value by a share of the current value.
    CurPer,
    /// Changes the current value by a share of the maximum.
    CurMaxPer,
}

} // verus!
