[package]
name = "path_view"
version = "0.1.0"
edition = "2021"
publish = false

[dependencies]
anyhow = "*"
crossbeam = "*"
futures = { version = "*", features = ["thread-pool"] }
futures-timer = "*"
log = "*"
num_cpus = "*"
parking_lot = "*"
rayon = "*"
