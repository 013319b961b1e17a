[package]
name = "yieldera_math"
version = "0.1.0"
edition = "2021"
publish = false

[dependencies]
alloy = { version = "=1.8.3", default-features = false, features = ["std", "contract", "provider-http", "signer-local"] }
color-eyre = "=0.6.5"
dotenvy = "=0.15.7"
once_cell = "=1.21.4"
serde = { version = "=1.0.229", features = ["derive"] }
tokio = { version = "=1.54.1", features = ["macros", "rt-multi-thread"] }
toml = "=0.8.23"
tracing = "=0.1.44"
