pub mod duration;
pub mod text;
pub mod filter;
pub mod target;
pub mod condition;
pub mod context;
pub mod warnings;
pub mod consumption;
pub mod meaning;
