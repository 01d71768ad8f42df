//! Kinds of instant change of a bounded attribute.
use vstd::prelude::*;

verus! {

/// How an instant change of a bounded attribute is computed.
#[derive(Debug, Clone, Copy, PartialEq, Eq, Structural)]
pub enum AttrAlterEffType {
    /// An absolute amount.
    Val,
    /// A share of the current value.
    CurPer,
    /// A share of the maximum.
    MaxPer,
}

} // verus!
