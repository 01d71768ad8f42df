pub mod effects;
pub mod upserts;
pub mod attr_layers;
pub mod bound_attr_effs;
pub mod bound_attr_modifiers;
pub mod bounded_attr_effs;
pub mod stat_attr_effs;
pub mod stat_attr_modifiers;
pub mod slot_map_specs;
pub mod eff_collections;
pub mod modifier_collections;
pub mod attr_systems;
