[package]
name = "lever_pool"
version = "0.1.0"
edition = "2021"
publish = false

[dependencies]
soroban-fixed-point-math = "=1.5.0"
soroban-sdk = "=25.3.2"
sep-40-oracle = "=1.4.0"
sep-41-token = "=1.4.0"
