pub mod errno;
pub mod fail;
pub mod memory;
pub mod network;
pub mod text;
