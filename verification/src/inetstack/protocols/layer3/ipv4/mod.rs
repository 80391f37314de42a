pub mod header;
pub mod laws;
