//! Kinds of effect on an attribute.
use vstd::prelude::*;

verus! {

/// The kind of an attribute effect.
#[derive(Clone, Copy, Debug, PartialEq, Eq, Structural)]
pub enum DynAttrEffectType {
    /// Flat addition to the base ("base damage +x").
    BasicAdd,
    /// Final multiplication ("x times the damage"); grows exponentially, use with care.
    FinalMulti,
    /// Percentage of the base ("base damage +x%").
    BasicPercent,
    /// Final percentage ("damage +x%").
    FinalPercent,
}

} // verus!
