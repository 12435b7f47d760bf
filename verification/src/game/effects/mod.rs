pub mod revealing;
pub mod quantity;
pub mod speed_effects;
pub mod chain;
