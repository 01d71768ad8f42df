//! The dimensions along which a bound attribute is modified.
use vstd::prelude::*;

verus! {

/// The dimension of a bound modifier. Bounds change on their base value only, so
/// that the change can be mirrored exactly on the bounded value.
#[derive(Clone, Copy, Debug, PartialEq, Eq, Hash, Structural)]
pub enum BoundAttrModifyDimension {
    /// Flat addition to the base.
    BasicAdd,
    /// Percentage of the base.
    BasicPer,
}

} // verus!
