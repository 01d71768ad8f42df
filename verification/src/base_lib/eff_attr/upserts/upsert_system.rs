//! Merge rules for values of the same identity.
use vstd::prelude::*;

verus! {

/// Plain replacement; special merges (stacking and the like) are written by the caller.
pub fn replace<T: Sized>(dest: &mut T, new: T)
    ensures
        *final(dest) == new,
{
    *dest = new;
}

} // verus!
