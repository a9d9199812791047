[package]
name = "load_tester"
version = "0.1.0"
edition = "2021"
publish = false

[dependencies]
indexmap = "2"
toml = "0.8"
aquatic_udp_load_test = { version = "*", default-features = false }
clap = { version = "4", features = ["derive"] }
anyhow = "1"
tempfile = "3"
rand = "0.8"
rand_distr = "0.4"
