[package]
name = "sandbox_exchange"
version = "0.1.0"
edition = "2021"
publish = false

[dependencies]
dashmap = "6.1"
rayon = "1.10"
uuid = { version = "1", features = ["v4"] }
chrono = { version = "0.4", default-features = false, features = ["clock", "std"] }
tokio = { version = "1", features = ["sync", "rt", "macros"] }
futures = "0.3"
async-trait = "0.1"
serde = { version = "1", features = ["derive"] }
thiserror = "1"
tracing = "0.1"
