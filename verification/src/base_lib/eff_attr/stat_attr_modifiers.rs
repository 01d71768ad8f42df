//! The dimensions along which a stat attribute is modified.
use vstd::prelude::*;

verus! {

/// The dimension of a stat modifier; the formula is
/// `(base * (1 + basic_per) + basic_add) * (1 + final_per) * final_mul`.
#[derive(Clone, Copy, Debug, PartialEq, Eq, Hash, Structural)]
pub enum StatAttrModifyDimension {
    /// Flat addition to the base ("base strength +x"); safe.
    BasicAdd,
    /// Percentage of the base ("base strength +x%"); safe.
    BasicPer,
    /// Final percentage ("strength +x%"); safe.
    FinalPer,
    /// Final factor ("x times the strength"); grows exponentially, use with care.
    FinalMul,
}

} // verus!
