//! Effect identities and the good/bad reading of effect values.
use vstd::prelude::*;
use core::cmp::Ordering;
use vstd::std_specs::cmp::PartialOrdSpec;
use crate::base_lib::cores::unify_types::FixedName;

verus! {

/// The identity of an effect: its source and its name.
#[derive(Debug, Clone, PartialEq, Eq, Hash)]
pub struct EffId<S: FixedName> {
    pub from_name: S,
    pub effect_name: S,
}

/// The identity of an effect, borrowed.
#[derive(Debug, Clone, PartialEq, Eq, Hash)]
pub struct EffIdRef<'a, S: FixedName> {
    pub from_name: &'a S,
    pub effect_name: &'a S,
}

impl<'a, S: FixedName> Copy for EffIdRef<'a, S> {}

/// Reads an effect as good or bad.
pub trait EffectMeaning {
    /// Whether the effect is good, bad or neutral.
    fn which_nature(&self) -> EffectMean;
}

/// Whether an effect is good or bad.
#[derive(Clone, Copy, Debug, PartialEq, Eq, Structural)]
pub enum EffectMean {
    /// Harmful.
    Bad,
    /// Helpful.
    Good,
    /// Neither.
    Neutral,
}

/// The reading of a value that compares to the baseline as `o`.
pub open spec fn mean_of(o: Option<Ordering>) -> EffectMean {
    match o {
        Some(Ordering::Greater) => EffectMean::Good,
        Some(Ordering::Less) => EffectMean::Bad,
        _ => EffectMean::Neutral,
    }
}

impl EffectMean {
    /// Good above the baseline, bad below it, neutral otherwise (equal, or not
    /// comparable). The baseline is 0 for additive values and 1 for factors.
    pub fn which_nature<V: PartialOrd>(value: V, base_line: V) -> (r: Self)
        ensures
            V::obeys_partial_cmp_spec() ==> r == mean_of(value.partial_cmp_spec(&base_line)),
    {
        if value > base_line {
            Self::Good
        } else if value < base_line {
            Self::Bad
        } else {
            Self::Neutral
        }
    }

    /// Whether helpful.
    pub fn is_good(&self) -> (r: bool)
        ensures
            r == (*self == EffectMean::Good),
    {
        matches!(self, Self::Good)
    }

    /// Whether harmful.
    pub fn is_bad(&self) -> (r: bool)
        ensures
            r == (*self == EffectMean::Bad),
    {
        matches!(self, Self::Bad)
    }

    /// Whether neither.
    pub fn is_neutral(&self) -> (r: bool)
        ensures
            r == (*self == EffectMean::Neutral),
    {
        matches!(self, Self::Neutral)
    }
}

/// Swapping value and baseline swaps good and bad and keeps neutral.
pub proof fn law_mean_swap(o: Option<Ordering>)
    ensures
        mean_of(o) == EffectMean::Good <==> mean_of(reverse(o)) == EffectMean::Bad,
        mean_of(o) == EffectMean::Neutral <==> mean_of(reverse(o)) == EffectMean::Neutral,
{
}

/// The comparison seen from the other side.
pub open spec fn reverse(o: Option<Ordering>) -> Option<Ordering> {
    match o {
        Some(Ordering::Greater) => Some(Ordering::Less),
        Some(Ordering::Less) => Some(Ordering::Greater),
        other => other,
    }
}

} // verus!
