[package]
name = "genome_selfsim"
version = "0.1.0"
edition = "2021"
publish = false

[dependencies]
arrow = { version = "*", default-features = false, features = ["ipc"] }
flate2 = "*"
rayon = "*"
crossbeam-channel = "*"
num_cpus = "*"
serde = { version = "*", features = ["derive"] }
serde_json = "*"
