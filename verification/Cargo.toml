[package]
name = "lattice_bus"
version = "0.1.0"
edition = "2021"
publish = false

[dependencies]
crossbeam = "=0.8.5"
nats = "=0.26.0"
wascc-codec = "=0.9.1"
rmp = "=0.8.9"
serde = { version = "=1.0.229", features = ["derive"] }
log = "=0.4.34"
