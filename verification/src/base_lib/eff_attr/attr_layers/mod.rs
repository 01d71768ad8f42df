//! Compound attributes: layered attributes through which an effect passes.
//!
//! An effect may hit several attributes in turn (a shield, then health). Layers are
//! ordered as a chain: each layer names the one below it, the bottom names itself,
//! and each step down lowers the layer number by exactly one, which rules out
//! cycles. An effect starts at one layer and stops at a lower one. To waste nothing
//! when several effects hit a compound attribute in one frame, effects that reach
//! lower layers are applied later; see [`attr_layer_system::rank_attr_layer_eff`].
pub mod attr_layer_system;

use vstd::prelude::*;
use vstd::std_specs::cmp::PartialEqSpec;

verus! {

/// A layer of a compound attribute.
pub trait AttrLayerType: core::fmt::Debug + Copy + Eq {
    /// The layer below; the bottom layer names itself.
    spec fn next_of(&self) -> Self;

    /// The layer number; one lower for each step down.
    spec fn layer_of(&self) -> u8;

    fn get_next(&self) -> (r: Self)
        ensures
            r == self.next_of(),
    ;

    fn get_layer(&self) -> (r: u8)
        ensures
            r == self.layer_of(),
    ;
}

/// The layers an effect passes: from where it starts to where it stops.
pub trait AttrLayerEffType: core::fmt::Debug + Copy + Eq {
    type LayerType: AttrLayerType;

    spec fn start_of(&self) -> Self::LayerType;

    spec fn stop_of(&self) -> Self::LayerType;

    fn start_at(&self) -> (r: Self::LayerType)
        ensures
            r == self.start_of(),
    ;

    fn stop_at(&self) -> (r: Self::LayerType)
        ensures
            r == self.stop_of(),
    ;
}

/// The chain from `n` down is well formed: each step down lowers the layer number
/// by exactly one until a layer names itself.
pub open spec fn layer_chain_valid<T: AttrLayerType>(n: T) -> bool
    decreases n.layer_of(),
{
    if n.eq_spec(&n.next_of()) {
        true
    } else if step_ok(n) {
        layer_chain_valid(n.next_of())
    } else {
        false
    }
}

/// A step down from `n` lowers the layer number by exactly one.
pub open spec fn step_ok<T: AttrLayerType>(n: T) -> bool {
    n.layer_of() >= 1 && n.next_of().layer_of() == n.layer_of() - 1
}

/// The walk from `n` down is well formed: each step lowers the layer number by
/// exactly one until a layer's successor equals it.
pub open spec fn walk_valid<T: AttrLayerType>(n: T) -> bool
    decreases n.layer_of(),
{
    if n.next_of().eq_spec(&n) {
        true
    } else if step_ok(n) {
        walk_valid(n.next_of())
    } else {
        false
    }
}

/// The layers from `n` down to the bottom, in order.
pub open spec fn layers_from<T: AttrLayerType>(n: T) -> Seq<T>
    decreases n.layer_of(),
{
    if n.next_of().eq_spec(&n) {
        seq![n]
    } else if step_ok(n) {
        seq![n] + layers_from(n.next_of())
    } else {
        seq![n]
    }
}

/// The layers from `n` down to the first that equals `stop`, or to the bottom.
pub open spec fn layers_between<T: AttrLayerType>(n: T, stop: T) -> Seq<T>
    decreases n.layer_of(),
{
    if n.eq_spec(&stop) {
        seq![n]
    } else if n.next_of().eq_spec(&n) {
        seq![n]
    } else if step_ok(n) {
        seq![n] + layers_between(n.next_of(), stop)
    } else {
        seq![n]
    }
}

/// Walks the layers from a start layer down to the bottom.
#[derive(Debug, Clone)]
pub struct AttrLayerTypeIter<T: AttrLayerType> {
    current: Option<T>,
}

/// Walks the layers an effect passes, from where it starts to where it stops.
#[derive(Debug, Clone)]
pub struct AttrLayerEffTypeIter<T: AttrLayerType> {
    current: Option<T>,
    stop_at: T,
}

impl<T: AttrLayerType> AttrLayerTypeIter<T> {
    /// The layers still to come.
    pub closed spec fn rest(&self) -> Seq<T> {
        match self.current {
            Some(c) => layers_from(c),
            None => Seq::empty(),
        }
    }

    /// The layer where the walk currently stands.
    pub closed spec fn current_of(&self) -> Option<T> {
        self.current
    }

    /// The next layer of the walk, if any.
    pub fn next(&mut self) -> (r: Option<T>)
        requires
            T::obeys_eq_spec(),
            old(self).current_of() matches Some(c) ==> walk_valid(c),
        ensures
            old(self).rest().len() == 0 ==> r is None && final(self).rest().len() == 0,
            old(self).rest().len() > 0 ==> r == Some(old(self).rest()[0]) && final(self).rest()
                == old(self).rest().drop_first(),
            final(self).current_of() matches Some(c) ==> walk_valid(c),
    {
        match self.current {
            Some(current) => {
                let next = current.get_next();
                proof {
                    assert(seq![current].drop_first() =~= Seq::<T>::empty());
                    if !next.eq_spec(&current) {
                        assert((seq![current] + layers_from(next)).drop_first() =~= layers_from(
                            next,
                        ));
                    }
                }
                self.current = if next == current {
                    None
                } else {
                    Some(next)
                };
                Some(current)
            },
            None => None,
        }
    }
}

impl<T: AttrLayerType> AttrLayerEffTypeIter<T> {
    /// The layers still to come.
    pub closed spec fn rest(&self) -> Seq<T> {
        match self.current {
            Some(c) => layers_between(c, self.stop_at),
            None => Seq::empty(),
        }
    }

    /// The layer where the walk currently stands.
    pub closed spec fn current_of(&self) -> Option<T> {
        self.current
    }

    /// Where the walk stops.
    pub closed spec fn stop_of(&self) -> T {
        self.stop_at
    }

    /// The next layer of the walk, if any.
    pub fn next(&mut self) -> (r: Option<T>)
        requires
            T::obeys_eq_spec(),
            old(self).current_of() matches Some(c) ==> walk_valid(c),
        ensures
            old(self).rest().len() == 0 ==> r is None && final(self).rest().len() == 0,
            old(self).rest().len() > 0 ==> r == Some(old(self).rest()[0]) && final(self).rest()
                == old(self).rest().drop_first(),
            final(self).current_of() matches Some(c) ==> walk_valid(c),
            final(self).stop_of() == old(self).stop_of(),
    {
        match self.current {
            Some(current) => {
                if current == self.stop_at {
                    self.current = None;
                    proof {
                        assert(seq![current].drop_first() =~= Seq::<T>::empty());
                    }
                } else {
                    let next = current.get_next();
                    proof {
                        assert(seq![current].drop_first() =~= Seq::<T>::empty());
                        if !next.eq_spec(&current) {
                            assert((seq![current] + layers_between(next, self.stop_at)).drop_first()
                                =~= layers_between(next, self.stop_at));
                        }
                    }
                    self.current = if next == current {
                        None
                    } else {
                        Some(next)
                    };
                }
                Some(current)
            },
            None => None,
        }
    }
}

impl<E: AttrLayerType> From<E> for AttrLayerTypeIter<E> {
    /// A walk from `value` down.
    fn from(value: E) -> (r: Self)
        ensures
            r.current_of() == Some(value),
    {
        AttrLayerTypeIter { current: Some(value) }
    }
}

impl<E: AttrLayerType> vstd::std_specs::convert::FromSpecImpl<E> for AttrLayerTypeIter<E> {
    open spec fn obeys_from_spec() -> bool {
        true
    }

    closed spec fn from_spec(v: E) -> Self {
        AttrLayerTypeIter { current: Some(v) }
    }
}

impl<E: AttrLayerEffType> From<E> for AttrLayerEffTypeIter<E::LayerType> {
    /// A walk over the layers `value` passes.
    fn from(value: E) -> (r: Self)
        ensures
            r.current_of() == Some(value.start_of()),
            r.stop_of() == value.stop_of(),
    {
        AttrLayerEffTypeIter { current: Some(value.start_at()), stop_at: value.stop_at() }
    }
}

impl<E: AttrLayerEffType> vstd::std_specs::convert::FromSpecImpl<E> for AttrLayerEffTypeIter<E::LayerType> {
    open spec fn obeys_from_spec() -> bool {
        true
    }

    closed spec fn from_spec(v: E) -> Self {
        AttrLayerEffTypeIter { current: Some(v.start_of()), stop_at: v.stop_of() }
    }
}

/// A layer chain is valid exactly when it ends at a layer that names itself or
/// takes a step that lowers the layer number by exactly one to a layer whose chain
/// is valid in turn: validity is inherited down the chain, so every step of a valid
/// chain lowers the number by one, and one bad step anywhere makes it invalid.
/// The same holds of the walks that the layer iterators take.
pub proof fn law_layer_chain_steps<T: AttrLayerType>(n: T)
    ensures
        n.eq_spec(&n.next_of()) ==> layer_chain_valid(n),
        layer_chain_valid(n) && !n.eq_spec(&n.next_of()) ==> n.layer_of() >= 1
            && n.next_of().layer_of() + 1 == n.layer_of() && layer_chain_valid(n.next_of()),
        !n.eq_spec(&n.next_of()) && n.layer_of() >= 1 && n.next_of().layer_of() + 1
            == n.layer_of() && layer_chain_valid(n.next_of()) ==> layer_chain_valid(n),
        !n.eq_spec(&n.next_of()) && !(n.layer_of() >= 1 && n.next_of().layer_of() + 1
            == n.layer_of()) ==> !layer_chain_valid(n),
        n.next_of().eq_spec(&n) ==> walk_valid(n),
        walk_valid(n) && !n.next_of().eq_spec(&n) ==> n.layer_of() >= 1
            && n.next_of().layer_of() + 1 == n.layer_of() && walk_valid(n.next_of()),
        !n.next_of().eq_spec(&n) && !(n.layer_of() >= 1 && n.next_of().layer_of() + 1
            == n.layer_of()) ==> !walk_valid(n),
{
}

/// Two bad steps: a chain whose second step skips a layer is invalid, however good
/// its first step.
pub proof fn law_layer_chain_second_step<T: AttrLayerType>(n: T)
    requires
        !n.eq_spec(&n.next_of()),
        !n.next_of().eq_spec(&n.next_of().next_of()),
        n.next_of().next_of().layer_of() + 1 != n.next_of().layer_of(),
    ensures
        !layer_chain_valid(n),
{
    law_layer_chain_steps(n);
    law_layer_chain_steps(n.next_of());
}

} // verus!
