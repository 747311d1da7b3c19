pub mod boxes;
pub mod filter;
