//! Kinds of change of a property's current value.
use vstd::prelude::*;

verus! {

/// How a change of a property's current value is computed.
#[derive(Debug, Clone, Copy, PartialEq, Eq, Structural)]
pub enum PropAlterEffectType {
    /// An absolute amount.
    Val,
    /// A share of the current value.
    CurPer,
    /// A share of the maximum.
    MaxPer,
}

} // verus!
