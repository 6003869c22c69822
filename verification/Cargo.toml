[package]
name = "polywatcher"
version = "0.1.0"
edition = "2021"
publish = false

[dependencies]
alloy = { version = "*", default-features = false, features = ["std", "signer-local"] }
alloy-primitives = "*"
uuid = "*"
rust_decimal = "*"
serde = { version = "*", features = ["derive"] }
serde_json = "*"
tokio = { version = "*", features = ["full"] }
futures-util = "*"
dotenv = "*"
