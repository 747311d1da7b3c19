pub mod system;
