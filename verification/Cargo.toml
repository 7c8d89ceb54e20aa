[package]
name = "context_keeper"
version = "0.1.0"
edition = "2021"
publish = false

[dependencies]
regex = "=1.13.1"
serde_json = "=1.0.151"
serde = { version = "=1.0.229", features = ["derive"] }
toml = "=1.1.7"
chrono = "=0.4.45"
glob = "=0.3.4"
schemars = "=1.2.2"
rmcp = { version = "=3.5.1", features = ["transport-io"] }
tokio = { version = "=1.53.2", features = ["rt-multi-thread", "macros", "io-std", "io-util"] }
