[package]
name = "dapps_staking"
version = "0.1.0"
edition = "2021"
publish = false

[dependencies]
ink_env = "3"
parity-scale-codec = { version = "*", features = ["derive"] }
