[package]
name = "tollgate"
version = "0.1.0"
edition = "2021"
publish = false

[dependencies]
anyhow = "1"
axum = "0.7"
axum-extra = { version = "0.9", features = ["typed-header", "multipart"] }
bb8 = "0.8"
bytes = "1"
chrono = "0.4"
color-string = "*"
diesel-async = { version = "0.5", features = ["postgres", "bb8"] }
futures-util = "0.3"
if-addrs = "*"
jsonwebtoken = "9"
once_cell = "1"
percent-encoding = "2"
serde = { version = "1", features = ["derive"] }
serde_json = "1"
serde_urlencoded = "0.7"
tokio = { version = "1", features = ["full"] }
toml = "0.8"
tower = "0.4"
tower-http = { version = "0.5", features = ["fs", "limit"] }
validator = { version = "*", features = ["derive"] }
