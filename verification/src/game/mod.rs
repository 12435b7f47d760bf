pub mod layers;
pub mod public_state;
pub mod turn_control;
pub mod zones;
pub mod damage;
pub mod sba;
pub mod turns;
pub mod combat;
pub mod engine_combat;
pub mod effects;
pub mod filter;
pub mod replacement_events;
pub mod engine_replacement;
