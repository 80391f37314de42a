pub mod catnip;
pub mod demikernel;
pub mod inetstack;
pub mod runtime;
pub mod tcp_server;
