[package]
name = "wluma"
version = "0.1.0"
edition = "2021"
publish = false

[dependencies]
ash = "0.37"
dirs = "4"
itertools = "0.10"
log = "0.4"
serde = { version = "1", features = ["derive"] }
toml = "0.5"
wayland-client = "0.29"
wayland-protocols = { version = "0.29", features = ["client", "unstable_protocols"] }
