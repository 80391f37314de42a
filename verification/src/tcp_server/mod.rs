pub mod connection;
pub mod event_loop;
pub mod laws;
pub mod sgarray;
