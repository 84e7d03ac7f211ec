[package]
name = "hex_terrain"
version = "0.1.0"
edition = "2021"
publish = false

[dependencies]
rand = "=0.8.8"
pcg_rand = "=0.13.0"
png = "=0.16.8"
jpeg-decoder = { version = "=0.1.22", default-features = false }
bincode = "=1.3.3"
serde = { version = "=1.0.229", features = ["derive"] }
nalgebra = "*"
