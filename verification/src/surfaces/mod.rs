pub mod types;
pub mod patch;
pub mod clocks;
pub mod standing;
pub mod contact;
