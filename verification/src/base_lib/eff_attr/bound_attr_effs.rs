//! Kinds of effect on a bound attribute.
use vstd::prelude::*;

verus! {

/// The kind of an effect on a bound attribute; it changes the base value only.
#[derive(Clone, Copy, Debug, PartialEq, Eq, Hash, Structural)]
pub enum BoundAttrEffType {
    /// Flat addition to the base.
    BasicAdd,
    /// Percentage of the base.
    BasicPer,
}

} // verus!
