//! Checks and ordering for compound attribute layers.
use vstd::prelude::*;
use core::cmp::Ordering;
use vstd::std_specs::cmp::PartialEqSpec;
use crate::base_lib::eff_attr::attr_layers::{
    layer_chain_valid, layers_between, step_ok, walk_valid, AttrLayerEffType, AttrLayerEffTypeIter,
    AttrLayerType,
};

verus! {

/// Whether the layers from `start_at` down are well formed: each step lowers the
/// layer number by exactly one until a layer names itself. (A step down from
/// layer 0 is malformed.)
pub fn is_attr_layer_valid<E: AttrLayerType>(start_at: E) -> (r: bool)
    ensures
        E::obeys_eq_spec() ==> r == layer_chain_valid(start_at),
{
    let mut current_node = start_at;
    let mut next_node = current_node.get_next();
    while current_node != next_node
        invariant
            next_node == current_node.next_of(),
            E::obeys_eq_spec() ==> layer_chain_valid(start_at) == layer_chain_valid(current_node),
        decreases current_node.layer_of(),
    {
        let layer = current_node.get_layer();
        if layer == 0 || layer - 1 != next_node.get_layer() {
            return false;
        }
        current_node = next_node;
        next_node = next_node.get_next();
    }
    true
}

/// Whether the walk that `eff_type` describes reaches its stop layer.
pub fn is_attr_layer_eff_type_valid<E: AttrLayerEffType>(eff_type: E) -> (r: bool)
    requires
        E::LayerType::obeys_eq_spec(),
        walk_valid(eff_type.start_of()),
    ensures
        r == layers_between(eff_type.start_of(), eff_type.stop_of()).last().eq_spec(
            &eff_type.stop_of(),
        ),
{
    let stop_at = eff_type.stop_at();
    let mut ll = AttrLayerEffTypeIter::from(eff_type);
    let ghost all = layers_between(eff_type.start_of(), stop_at);
    let mut visited = false;
    proof {
        lemma_between_shape(eff_type.start_of(), stop_at);
    }
    loop
        invariant
            ll.stop_of() == stop_at,
            ll.current_of() matches Some(c) ==> walk_valid(c),
            E::LayerType::obeys_eq_spec(),
            all.len() >= 1,
            ll.rest().len() <= all.len(),
            ll.rest() == all.subrange(all.len() - ll.rest().len(), all.len() as int),
            forall|k: int| 0 <= k < all.len() - 1 ==> !(#[trigger] all[k]).eq_spec(&stop_at),
            visited == (ll.rest().len() == 0 && all.last().eq_spec(&stop_at)),
            ll.rest().len() > 0 ==> visited == false,
        ensures
            visited == all.last().eq_spec(&stop_at),
        decreases ll.rest().len(),
    {
        let ghost before = ll.rest();
        match ll.next() {
            Some(current) => {
                proof {
                    assert(current == all[all.len() - before.len()]);
                }
                if current == stop_at {
                    visited = true;
                }
                proof {
                    assert(ll.rest() =~= all.subrange(all.len() - ll.rest().len(), all.len() as int));
                }
            },
            None => {
                break;
            },
        }
    }
    visited
}

/// Checks that the layers from `start_at` down are well formed. A malformed chain
/// is a definition error, outside what this accepts; on the chains it accepts the
/// check passes and returns.
pub fn check_attr_layer<E: AttrLayerType>(start_at: E)
    requires
        layer_chain_valid(start_at),
{
    let valid = is_attr_layer_valid(start_at);
    proof {
        if E::obeys_eq_spec() {
            assert(valid);
        }
    }
}

/// Checks that the walk that `eff_type` describes reaches its stop layer. A walk
/// that misses it is a definition error, outside what this accepts; on the walks
/// it accepts the check passes and returns.
pub fn check_attr_layer_eff_type<E: AttrLayerEffType>(eff_type: E)
    requires
        E::LayerType::obeys_eq_spec(),
        walk_valid(eff_type.start_of()),
        layers_between(eff_type.start_of(), eff_type.stop_of()).last().eq_spec(&eff_type.stop_of()),
{
    let visited = is_attr_layer_eff_type_valid(eff_type);
    assert(visited);
}

/// The walk between two layers is never empty; only its last layer may equal the stop.
pub proof fn lemma_between_shape<T: AttrLayerType>(n: T, stop: T)
    ensures
        layers_between(n, stop).len() >= 1,
        layers_between(n, stop)[0] == n,
        forall|k: int|
            0 <= k < layers_between(n, stop).len() - 1 ==> !(#[trigger] layers_between(
                n,
                stop,
            )[k]).eq_spec(&stop),
    decreases n.layer_of(),
{
    if n.eq_spec(&stop) {
    } else if n.next_of().eq_spec(&n) {
    } else if step_ok(n) {
        lemma_between_shape(n.next_of(), stop);
        let rest = layers_between(n.next_of(), stop);
        assert forall|k: int| 0 <= k < layers_between(n, stop).len() - 1 implies !(
        #[trigger] layers_between(n, stop)[k]).eq_spec(&stop) by {
            if k > 0 {
                assert(layers_between(n, stop)[k] == rest[k - 1]);
            }
        }
    }
}

/// The order in which effects on a compound attribute are applied: first by stop
/// layer, then by start layer, the higher layer first in each case, so that
/// effects reaching lower layers come later.
pub open spec fn rank_spec<E: AttrLayerEffType>(a: E, b: E) -> Ordering {
    let a_stop = a.stop_of().layer_of();
    let b_stop = b.stop_of().layer_of();
    if a_stop == b_stop {
        order_u8(b.start_of().layer_of(), a.start_of().layer_of())
    } else {
        order_u8(b_stop, a_stop)
    }
}

/// The order of two layer numbers.
pub open spec fn order_u8(x: u8, y: u8) -> Ordering {
    if x < y {
        Ordering::Less
    } else if x == y {
        Ordering::Equal
    } else {
        Ordering::Greater
    }
}

/// Compares two effects by the layers they reach: the effect reaching the higher
/// stop layer comes first; on equal stop layers, the one starting higher.
pub fn rank_attr_layer_eff<E: AttrLayerEffType>(a: &E, b: &E) -> (r: Ordering)
    ensures
        r == rank_spec(*a, *b),
{
    let a_stop_layer = a.stop_at().get_layer();
    let b_stop_layer = b.stop_at().get_layer();
    if a_stop_layer == b_stop_layer {
        let a_start_layer = a.start_at().get_layer();
        let b_start_layer = b.start_at().get_layer();
        order_layers(b_start_layer, a_start_layer)
    } else {
        order_layers(b_stop_layer, a_stop_layer)
    }
}

/// The order of two layer numbers.
fn order_layers(x: u8, y: u8) -> (r: Ordering)
    ensures
        r == order_u8(x, y),
{
    if x < y {
        Ordering::Less
    } else if x == y {
        Ordering::Equal
    } else {
        Ordering::Greater
    }
}

/// The ranking is a total preorder: swapping the arguments reverses the answer,
/// equal answers are exactly equal layer pairs, and it is transitive.
pub proof fn law_rank_is_order<E: AttrLayerEffType>(a: E, b: E, c: E)
    ensures
        rank_spec(a, b) == Ordering::Less <==> rank_spec(b, a) == Ordering::Greater,
        rank_spec(a, b) == Ordering::Equal <==> rank_spec(b, a) == Ordering::Equal,
        rank_spec(a, b) == Ordering::Equal <==> (a.stop_of().layer_of() == b.stop_of().layer_of()
            && a.start_of().layer_of() == b.start_of().layer_of()),
        rank_spec(a, a) == Ordering::Equal,
        rank_spec(a, b) == Ordering::Less && rank_spec(b, c) == Ordering::Less ==> rank_spec(a, c)
            == Ordering::Less,
        rank_spec(a, b) != Ordering::Greater && rank_spec(b, c) != Ordering::Greater ==> rank_spec(
            a,
            c,
        ) != Ordering::Greater,
{
}

/// Effects that reach a lower layer rank after effects that stop higher.
pub proof fn law_lower_stop_ranks_later<E: AttrLayerEffType>(a: E, b: E)
    requires
        a.stop_of().layer_of() > b.stop_of().layer_of(),
    ensures
        rank_spec(a, b) == Ordering::Less,
{
}

/// Among effects that reach the same lowest layer, the one that starts lower ranks
/// later.
pub proof fn law_lower_start_ranks_later_on_equal_stop<E: AttrLayerEffType>(a: E, b: E)
    requires
        a.stop_of().layer_of() == b.stop_of().layer_of(),
        a.start_of().layer_of() > b.start_of().layer_of(),
    ensures
        rank_spec(a, b) == Ordering::Less,
        rank_spec(b, a) == Ordering::Greater,
{
}

} // verus!
