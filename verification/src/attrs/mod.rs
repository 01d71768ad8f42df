pub mod dyn_attr_effect;
pub mod dyn_prop_dur_effect;
pub mod dyn_prop_inst_effect;
pub mod effect_container;
