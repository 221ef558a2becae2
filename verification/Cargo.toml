[package]
name = "hepmc2"
version = "0.6.0"
edition = "2021"
publish = false

[dependencies]
log = "0.4"
ryu = "1"
serde = { version = "1", features = ["derive"] }
