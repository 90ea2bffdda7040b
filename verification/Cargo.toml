[package]
name = "butterfly_core"
version = "0.1.0"
edition = "2021"
publish = false

[dependencies]
argon2 = "*"
hex = "*"
rand_core = { version = "*", features = ["os_rng"] }
uuid = { version = "*", features = ["v4"] }
serde = { version = "*", features = ["derive"] }
tokio = { version = "*", features = ["full"] }
axum = "*"
