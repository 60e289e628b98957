[package]
name = "joystream_pallets"
version = "0.1.0"
edition = "2021"
publish = false

[dependencies]
sp-core = "*"
parity-scale-codec = { version = "*", features = ["derive"] }
serde = { version = "*", features = ["derive"] }
