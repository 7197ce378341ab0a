[package]
name = "rust_oracle_performance"
version = "0.1.0"
edition = "2021"
publish = false

[dependencies]
anyhow = "=1.0.104"
clap = "=2.34.0"
futures = "=0.3.34"
num_cpus = "=1.17.0"
oracle = "=0.5.8"
r2d2 = "=0.8.10"
r2d2-oracle = "=0.6.0"
tokio = { version = "=1.54.1", features = ["rt-multi-thread"] }
