pub mod tiny_timer;
pub mod few_shot_times;
pub mod pause_prefab;
pub mod static_timer;
pub mod static_trigger;
pub mod tick_timer;
pub mod tick_trigger;
