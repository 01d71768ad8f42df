//! Kinds and identities of effects on a stat attribute.
use vstd::prelude::*;
use crate::base_lib::cores::unify_types::FixedName;

verus! {

/// The kind of a stat effect.
#[derive(Clone, Copy, Debug, PartialEq, Eq, Hash, Structural)]
pub enum StatAttrEffType {
    /// Flat addition to the base; safe.
    BasicAdd,
    /// Percentage of the base; safe.
    BasicPer,
    /// Final percentage; safe.
    FinalPer,
    /// Final factor; grows exponentially, use with care.
    FinalMul,
}

/// The identity of a stat effect: its name and its source.
#[derive(Clone, Debug, PartialEq, Eq, Hash)]
pub struct StatAttrEffId<S: FixedName> {
    pub eff: S,
    pub from: S,
}

} // verus!
