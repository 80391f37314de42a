pub mod ipv4;

pub use self::ipv4::Ipv4Config;
