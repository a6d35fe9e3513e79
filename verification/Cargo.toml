[package]
name = "backend"
version = "0.1.0"
edition = "2021"
publish = false

[dependencies]
axum = "0.8"
base64 = "0.22"
bitflags = { version = "2", features = ["serde"] }
chrono = { version = "0.4", features = ["serde"] }
deadpool-diesel = { version = "0.6", features = ["postgres", "rt_tokio_1"] }
diesel = { version = "2", features = ["postgres", "uuid", "chrono", "serde_json"] }
diesel-derive-enum = { version = "*", features = ["postgres"] }
dotenvy = "0.15"
exn = "*"
fast_qr = { version = "*", features = ["svg"] }
ipnet = { version = "2", features = ["serde"] }
jsonwebtoken = { version = "10", features = ["rust_crypto"] }
serde = { version = "1", features = ["derive"] }
serde-email = "*"
serde_json = "1"
tokio = { version = "1", features = ["full"] }
tokio-util = { version = "0.7", features = ["io"] }
toml = "*"
tower-http = { version = "0.6", features = ["cors"] }
tracing = "0.1"
tracing-subscriber = "0.3"
uuid = { version = "1", features = ["serde", "v4"] }
