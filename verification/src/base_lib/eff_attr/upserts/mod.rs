//! Values that merge with a later value of the same identity.
pub mod upsert_system;

use vstd::prelude::*;

verus! {

/// A type whose values can be merged with a later value of the same identity.
pub trait Upsert {
    type Id: Eq + core::hash::Hash + Clone + core::fmt::Debug;

    type IdRef<'a>: Eq + core::hash::Hash + Copy + Clone + core::fmt::Debug where Self: 'a;

    /// The identity of a value.
    spec fn upsert_id(&self) -> Self::Id;

    /// The identity, as an owned value, cloned so that fields can be combined freely.
    fn gen_id(&self) -> (r: Self::Id)
        ensures
            r == self.upsert_id(),
    ;

    /// The identity, borrowed, for fast comparison without cloning.
    fn id_ref<'a>(&'a self) -> Self::IdRef<'a>;
}

} // verus!
