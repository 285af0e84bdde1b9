pub mod buffer;
pub mod laws;
