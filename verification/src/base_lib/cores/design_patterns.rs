//! Design-pattern abstractions.
//!
//! Tick timers carry all they need, while static timers read a timeline. Both
//! implement the same traits by naming the context they depend on in
//! [`DependCtx::Ctx`]: `()` where nothing is needed, a timeline reference otherwise.
//!
//! [`Union`] pairs two values; proxies such as "a timer seen through a pause
//! switch" are unions of the switch and the timer.
use vstd::prelude::*;

verus! {

/// The context a value needs to answer timer queries.
pub trait DependCtx {
    type Ctx<'a>;
}

/// A pair of values acting as one.
pub struct Union<T, U>(pub T, pub U);

impl<T, U> Union<T, U> {
    /// Pairs `t` and `u`.
    pub fn new(t: T, u: U) -> (r: Self)
        ensures
            r.0 == t,
            r.1 == u,
    {
        Union(t, u)
    }
}

/// Conversion into a target type with the help of a context.
pub trait WithInto<Ctx> {
    type Target;

    fn with_into(self, ctx: Ctx) -> Self::Target;
}

} // verus!
