[package]
name = "allowlist"
version = "0.1.0"
edition = "2021"
publish = false

[dependencies]
axum = "*"
bb8 = "*"
bb8-redis = "*"
redis = { version = "*", features = ["tokio-comp"] }
serde = { version = "*", features = ["derive"] }
tokio = { version = "*", features = ["full"] }

[dev-dependencies]
move-core-types = "*"
