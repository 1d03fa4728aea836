[package]
name = "koharu"
version = "0.1.0"
edition = "2021"
publish = false

[dependencies]
anyhow = "1"
async-trait = "0.1"
atomicwrites = "*"
axum = "0.8"
camino = "1"
chrono = { version = "0.4", features = ["serde"] }
fs4 = "*"
image = { version = "0.25", default-features = false, features = ["jpeg", "png", "webp"] }
indexmap = { version = "2", features = ["serde"] }
inventory = "0.3"
parking_lot = "0.12"
postcard = { version = "1", default-features = false, features = ["use-std"] }
serde = { version = "1", features = ["derive"] }
serde_json = "1"
tokio = { version = "1", features = ["rt", "time"] }
toml = "*"
tracing = "0.1"
utoipa = { version = "5", features = ["axum_extras"] }
utoipa-axum = "0.2"
