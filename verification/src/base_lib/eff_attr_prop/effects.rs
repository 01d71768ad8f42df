//! Effect descriptions and the buff/debuff reading of effect values.
use vstd::prelude::*;
use core::cmp::Ordering;
use vstd::std_specs::cmp::PartialOrdSpec;

verus! {

/// An effect's source and name.
#[derive(Clone, Debug)]
pub struct EffectDescriptor<S> {
    /// Where the effect comes from, for accounting.
    pub from_name: S,
    /// The effect's name, by which events find it.
    pub effect_name: S,
}

/// Reads an effect as a buff or a debuff.
pub trait EffectMeaning {
    /// Whether the effect is a buff, a debuff or neutral.
    fn which_nature(&self) -> EffectMean;
}

/// Whether an effect is a buff or a debuff.
#[derive(Clone, Copy, Debug, PartialEq, Eq, Structural)]
pub enum EffectMean {
    /// Helpful.
    Buff,
    /// Harmful.
    Debuff,
    /// Neither.
    Neutral,
}

/// The reading of a value that compares to the baseline as `o`.
pub open spec fn nature_of(o: Option<Ordering>) -> EffectMean {
    match o {
        Some(Ordering::Greater) => EffectMean::Buff,
        Some(Ordering::Less) => EffectMean::Debuff,
        _ => EffectMean::Neutral,
    }
}

impl EffectMean {
    /// A buff above the baseline, a debuff below it, neutral otherwise (equal, or
    /// not comparable).
    pub fn which_nature<V: PartialOrd>(value: V, base_line: V) -> (r: Self)
        ensures
            V::obeys_partial_cmp_spec() ==> r == nature_of(value.partial_cmp_spec(&base_line)),
    {
        if value > base_line {
            Self::Buff
        } else if value < base_line {
            Self::Debuff
        } else {
            Self::Neutral
        }
    }

    /// Whether helpful.
    pub fn is_buff(&self) -> (r: bool)
        ensures
            r == (*self == EffectMean::Buff),
    {
        matches!(self, Self::Buff)
    }

    /// Whether harmful.
    pub fn is_debuff(&self) -> (r: bool)
        ensures
            r == (*self == EffectMean::Debuff),
    {
        matches!(self, Self::Debuff)
    }

    /// Whether neither.
    pub fn is_neutral(&self) -> (r: bool)
        ensures
            r == (*self == EffectMean::Neutral),
    {
        matches!(self, Self::Neutral)
    }
}

} // verus!
