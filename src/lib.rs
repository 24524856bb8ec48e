//! Switching between git identity profiles, each bound to its own ssh key pair.

pub mod errors;
pub mod model;
pub mod discovery;
pub mod locations;
pub mod cache;
pub mod query;
pub mod switch;
