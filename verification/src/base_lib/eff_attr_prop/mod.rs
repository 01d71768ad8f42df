pub mod upsert_container;
pub mod eff_container;
pub mod attr_eff;
pub mod eff_merge_logic;
pub mod effects;
pub mod prop_alter_eff;
pub mod prop_bounds_eff;
pub mod attr_systems;
