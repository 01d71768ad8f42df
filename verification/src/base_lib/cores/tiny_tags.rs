//! Tags in place of logic, keeping the framework apart from the business rules.
use vstd::prelude::*;
use crate::base_lib::cores::unify_types::FixedName;

verus! {

/// A condition over plain tags.
pub enum TinyTag<T: FixedName> {
    Always,
    Never,
    Has(T),
    Not(T),
    Or(T, T),
    And(T, T),
    And3(T, T, T),
}

/// A container of plain tags.
pub trait PureTagContainer {
    type PureTag: FixedName;

    /// Whether the container holds `pure_tag`.
    spec fn holds(&self, pure_tag: Self::PureTag) -> bool;

    /// Whether the container holds `pure_tag`; [`TinyTag::check_condition`] asks this.
    fn check_condition(&self, pure_tag: &Self::PureTag) -> (r: bool)
        ensures
            r == self.holds(*pure_tag),
    ;
}

impl<T: FixedName> TinyTag<T> {
    /// Whether the condition holds of the tags in `ll`.
    pub open spec fn eval<C: PureTagContainer<PureTag = T>>(&self, ll: &C) -> bool {
        match self {
            TinyTag::Always => true,
            TinyTag::Never => false,
            TinyTag::Has(t) => ll.holds(*t),
            TinyTag::Not(t) => !ll.holds(*t),
            TinyTag::Or(t1, t2) => ll.holds(*t1) || ll.holds(*t2),
            TinyTag::And(t1, t2) => ll.holds(*t1) && ll.holds(*t2),
            TinyTag::And3(t1, t2, t3) => ll.holds(*t1) && ll.holds(*t2) && ll.holds(*t3),
        }
    }

    /// Whether the condition holds of the tags in `ll`.
    pub fn check_condition<C: PureTagContainer<PureTag = T>>(&self, ll: &C) -> (r: bool)
        ensures
            r == self.eval(ll),
    {
        match self {
            TinyTag::Always => true,
            TinyTag::Never => false,
            TinyTag::Has(t) => ll.check_condition(t),
            TinyTag::Not(t) => !ll.check_condition(t),
            TinyTag::Or(t1, t2) => ll.check_condition(t1) || ll.check_condition(t2),
            TinyTag::And(t1, t2) => ll.check_condition(t1) && ll.check_condition(t2),
            TinyTag::And3(t1, t2, t3) => ll.check_condition(t1) && ll.check_condition(t2)
                && ll.check_condition(t3),
        }
    }
}

/// The conditions obey boolean logic: `Not` negates `Has`, `Or` and `And` do not
/// depend on the order of their tags, `And3` is `And` of `And`, and `Always` and
/// `Never` are each other's negation.
pub proof fn law_tag_logic<T: FixedName, C: PureTagContainer<PureTag = T>>(
    ll: &C,
    a: T,
    b: T,
    c: T,
)
    ensures
        TinyTag::Not(a).eval(ll) == !TinyTag::Has(a).eval(ll),
        TinyTag::Or(a, b).eval(ll) == TinyTag::Or(b, a).eval(ll),
        TinyTag::And(a, b).eval(ll) == TinyTag::And(b, a).eval(ll),
        TinyTag::And3(a, b, c).eval(ll) == (TinyTag::And(a, b).eval(ll) && TinyTag::Has(c).eval(
            ll,
        )),
        TinyTag::Or(a, b).eval(ll) == !(TinyTag::Not(a).eval(ll) && TinyTag::Not(b).eval(ll)),
        TinyTag::Always::<T>.eval(ll) == !TinyTag::Never::<T>.eval(ll),
        TinyTag::Or(a, a).eval(ll) == TinyTag::Has(a).eval(ll),
        TinyTag::And(a, a).eval(ll) == TinyTag::Has(a).eval(ll),
{
}

} // verus!
