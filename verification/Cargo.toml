[package]
name = "vdb_benchmarks"
version = "0.1.0"
edition = "2021"
publish = false

[dependencies]
anyhow = "1"
async-trait = "0.1"
bincode = "1"
chrono = { version = "=0.4.45", features = ["serde"] }
rand = "=0.8.8"
serde = { version = "1", features = ["derive"] }
serde_json = "=1.0.151"
tokio = { version = "1", features = ["rt-multi-thread", "macros", "process", "io-util", "sync", "time"] }
toml = "0.8"
uuid = "1"
