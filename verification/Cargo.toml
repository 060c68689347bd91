[package]
name = "hvisor"
version = "0.1.0"
edition = "2021"
publish = false

[dependencies]
aarch64-cpu = "=11.2.0"
psci = { version = "=0.1.3", default-features = false, features = ["smc"] }
spin = "=0.9.9"
