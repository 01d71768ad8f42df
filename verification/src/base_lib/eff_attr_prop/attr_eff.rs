//! Kinds and identities of attribute effects.
use vstd::prelude::*;
use crate::base_lib::cores::unify_types::FixedName;

verus! {

/// The kind of an attribute effect; the formula is
/// `(basic_add + base * (1 + basic_per)) * (1 + final_per) * final_mul`.
#[derive(Clone, Copy, Debug, PartialEq, Eq, Hash, Structural)]
pub enum AttrEffectType {
    /// Flat addition to the base ("base damage +x"); safe.
    BasicAdd,
    /// Percentage of the base ("base damage +x%"); safe.
    BasicPer,
    /// Final percentage ("damage +x%"); safe.
    FinalPer,
    /// Final factor ("x times the damage"); grows exponentially, use with care.
    FinalMul,
}

/// The identity of an attribute effect: its name and its source.
#[derive(Clone, Debug, PartialEq, Eq, Hash)]
pub struct AttrEffId<S: FixedName> {
    pub eff: S,
    pub from: S,
}

} // verus!
