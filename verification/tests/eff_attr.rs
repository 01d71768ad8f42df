use std::cmp::Ordering;

use rust_engine_frame::base_lib::eff_attr::attr_layers::attr_layer_system::{
    check_attr_layer, check_attr_layer_eff_type, is_attr_layer_eff_type_valid,
    is_attr_layer_valid, rank_attr_layer_eff,
};
use rust_engine_frame::base_lib::eff_attr::attr_layers::{
    AttrLayerEffType, AttrLayerEffTypeIter, AttrLayerType, AttrLayerTypeIter,
};
use rust_engine_frame::base_lib::eff_attr::attr_systems::{
    commit_pending_modifiers, take_dirty_modifiers,
};
use rust_engine_frame::base_lib::eff_attr::eff_collections::EffCollection;
use rust_engine_frame::base_lib::eff_attr::modifier_collections::{
    ModifierCollection, INVALID_MODIFIER,
};
use rust_engine_frame::base_lib::eff_attr_prop::eff_merge_logic::StackWithLimit;

/// Shield over armour over health.
#[derive(Debug, Clone, Copy, PartialEq, Eq)]
enum Layer {
    Shield,
    Armour,
    Health,
}

impl AttrLayerType for Layer {
    fn next_of(&self) -> Self {
        self.get_next()
    }

    fn layer_of(&self) -> u8 {
        self.get_layer()
    }

    fn get_next(&self) -> Self {
        match self {
            Layer::Shield => Layer::Armour,
            Layer::Armour => Layer::Health,
            Layer::Health => Layer::Health,
        }
    }

    fn get_layer(&self) -> u8 {
        match self {
            Layer::Shield => 2,
            Layer::Armour => 1,
            Layer::Health => 0,
        }
    }
}

/// A chain whose step skips a layer number.
#[derive(Debug, Clone, Copy, PartialEq, Eq)]
enum BadLayer {
    Top,
    Bottom,
}

impl AttrLayerType for BadLayer {
    fn next_of(&self) -> Self {
        self.get_next()
    }

    fn layer_of(&self) -> u8 {
        self.get_layer()
    }

    fn get_next(&self) -> Self {
        BadLayer::Bottom
    }

    fn get_layer(&self) -> u8 {
        match self {
            BadLayer::Top => 5,
            BadLayer::Bottom => 0,
        }
    }
}

/// Damage kinds and the layers they pass.
#[derive(Debug, Clone, Copy, PartialEq, Eq)]
enum Hit {
    Cut,
    ShieldBreaker,
    Poison,
}

impl AttrLayerEffType for Hit {
    type LayerType = Layer;

    fn start_of(&self) -> Layer {
        self.start_at()
    }

    fn stop_of(&self) -> Layer {
        self.stop_at()
    }

    fn start_at(&self) -> Layer {
        match self {
            Hit::Cut => Layer::Shield,
            Hit::ShieldBreaker => Layer::Shield,
            Hit::Poison => Layer::Health,
        }
    }

    fn stop_at(&self) -> Layer {
        match self {
            Hit::Cut => Layer::Health,
            Hit::ShieldBreaker => Layer::Shield,
            Hit::Poison => Layer::Health,
        }
    }
}

#[test]
fn layer_chains_are_checked() {
    assert!(is_attr_layer_valid(Layer::Shield));
    assert!(is_attr_layer_valid(Layer::Health));
    assert!(!is_attr_layer_valid(BadLayer::Top));
    check_attr_layer(Layer::Shield);
    check_attr_layer(Layer::Health);
}

#[test]
fn effect_walks_reach_their_stop() {
    assert!(is_attr_layer_eff_type_valid(Hit::Cut));
    assert!(is_attr_layer_eff_type_valid(Hit::ShieldBreaker));
    assert!(is_attr_layer_eff_type_valid(Hit::Poison));
    check_attr_layer_eff_type(Hit::Cut);
    check_attr_layer_eff_type(Hit::Poison);
}

#[test]
fn layer_iterators_walk_down() {
    let mut it = AttrLayerTypeIter::from(Layer::Shield);
    assert_eq!(it.next(), Some(Layer::Shield));
    assert_eq!(it.next(), Some(Layer::Armour));
    assert_eq!(it.next(), Some(Layer::Health));
    assert_eq!(it.next(), None);

    let mut it = AttrLayerEffTypeIter::from(Hit::ShieldBreaker);
    assert_eq!(it.next(), Some(Layer::Shield));
    assert_eq!(it.next(), None);

    let mut it = AttrLayerEffTypeIter::from(Hit::Cut);
    assert_eq!(it.next(), Some(Layer::Shield));
    assert_eq!(it.next(), Some(Layer::Armour));
    assert_eq!(it.next(), Some(Layer::Health));
    assert_eq!(it.next(), None);
}

#[test]
fn effects_reaching_lower_layers_rank_later() {
    assert_eq!(rank_attr_layer_eff(&Hit::ShieldBreaker, &Hit::Cut), Ordering::Less);
    assert_eq!(rank_attr_layer_eff(&Hit::Cut, &Hit::ShieldBreaker), Ordering::Greater);
    assert_eq!(rank_attr_layer_eff(&Hit::Cut, &Hit::Poison), Ordering::Less);
    assert_eq!(rank_attr_layer_eff(&Hit::Poison, &Hit::Poison), Ordering::Equal);

    let mut hits = vec![Hit::Poison, Hit::Cut, Hit::ShieldBreaker];
    hits.sort_by(rank_attr_layer_eff);
    assert_eq!(hits, vec![Hit::ShieldBreaker, Hit::Cut, Hit::Poison]);
}

#[test]
fn eff_collection_insert_remove_get() {
    let mut c = EffCollection::new();
    assert_eq!(c.len(), 0);
    let a = c.insert(10);
    let b = c.insert(20);
    assert_ne!(a, b);
    assert_eq!(c.len(), 2);
    let mut values = c.iter();
    values.sort();
    assert_eq!(values, vec![10, 20]);

    *c.get_mut(a).unwrap() = 11;
    assert_eq!(c.remove(a), Some(11));
    assert_eq!(c.remove(a), None);
    assert!(c.get_mut(a).is_none());
    assert_eq!(c.iter(), vec![20]);

    c.reset_flag();
    let _ = EffCollection::default();
}

#[test]
fn eff_collection_iterates_by_slot() {
    let mut c = EffCollection::new();
    let a = c.insert(10);
    c.insert(20);
    c.insert(30);
    assert_eq!(c.iter(), vec![10, 20, 30]);
    assert_eq!(c.remove(a), Some(10));
    // The freed first slot is taken again, so the newcomer comes first.
    c.insert(40);
    assert_eq!(c.iter(), vec![40, 20, 30]);
}

#[test]
fn modifier_collection_waits_for_commit() {
    let mut c = ModifierCollection::new();
    assert!(!c.is_dirty());
    let a = c.insert(7);
    let b = c.insert(8);
    assert_eq!(c.iter().len(), 2);
    assert!(c.iter().iter().all(|m| *m == INVALID_MODIFIER));
    assert!(!c.is_dirty());

    c.commit_pending();
    assert!(c.is_dirty());
    let mut values = c.iter();
    values.sort();
    assert_eq!(values, vec![7, 8]);

    c.reset_flag();
    c.commit_pending();
    assert!(!c.is_dirty());

    c.replace(a, 70);
    c.remove(b);
    assert_eq!(c.iter().len(), 2);
    c.commit_pending();
    assert_eq!(c.iter(), vec![70]);
    assert_eq!(c.len(), 1);
    assert!(c.is_dirty());

    // A replacement for a removed key does nothing.
    c.remove(a);
    c.replace(a, 71);
    c.commit_pending();
    assert!(c.iter().is_empty());
    let _ = ModifierCollection::default();
}

#[test]
fn stack_with_limit_keeps_at_least_the_limit() {
    let s = StackWithLimit(5);
    assert_eq!(s.add_stacks(1, 1), 5);
    assert_eq!(s.add_stacks(4, 3), 7);
    assert_eq!(s.add_stacks(-3, 2), 5);
}

#[test]
fn dirty_modifiers_are_handed_out_once() {
    let mut c = ModifierCollection::new();
    let _a = c.insert(3);
    assert!(take_dirty_modifiers(&mut c).is_none());
    commit_pending_modifiers(&mut c);
    assert_eq!(take_dirty_modifiers(&mut c), Some(vec![3]));
    assert!(!c.is_dirty());
    assert!(take_dirty_modifiers(&mut c).is_none());
}
