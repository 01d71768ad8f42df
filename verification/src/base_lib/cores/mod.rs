pub mod unify_types;
pub mod slots;
pub mod design_patterns;
pub mod timers;
pub mod tiny_tags;
pub mod tiny_timer;
