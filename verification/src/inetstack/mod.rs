pub mod config;
pub mod consts;
pub mod protocols;
