[package]
name = "demikernel"
version = "0.1.0"
edition = "2021"
publish = false

[dependencies]
anyhow = "1"
arrayvec = "0.7"
futures = "0.3"
libc = "0.2"
log = "0.4"
rand = { version = "0.8", features = ["small_rng"] }
