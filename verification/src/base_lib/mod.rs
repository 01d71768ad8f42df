pub mod cores;
pub mod eff_attr_prop;
pub mod eff_attr;
