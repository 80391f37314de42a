pub mod header;
pub mod laws;
pub mod peer;
pub mod protocol;
