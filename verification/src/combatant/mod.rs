pub mod components;
pub mod cooldown;
pub mod rng;
