[package]
name = "attested_oracle"
version = "0.1.0"
edition = "2021"
publish = false

[dependencies]
serde = { version = "*", features = ["derive"] }
serde_json = "*"
reqwest = { version = "*", default-features = false }
tokio = { version = "*", features = ["rt-multi-thread", "macros", "net"] }
axum = "*"
ed25519-dalek = { version = "*", features = ["rand_core"] }
rand = "0.8"
