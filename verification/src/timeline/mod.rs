pub mod state;
pub mod triggered;
pub mod advance;
pub mod cast;
pub mod acquire;
pub mod emit;
