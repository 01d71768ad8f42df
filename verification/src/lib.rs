//! Game-logic building blocks: timers and triggers, effect containers keyed by
//! identity, attribute layering and tag conditions.
pub mod attrs;
pub mod base_lib;
