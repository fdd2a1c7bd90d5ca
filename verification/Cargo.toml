[package]
name = "svg2ico"
version = "0.1.0"
edition = "2021"
publish = false

[dependencies]
axum = { version = "*", features = ["multipart"] }
cairo-rs = "*"
chrono = "*"
librsvg-rebind = "*"
rustc_version_runtime = "*"
serde = { version = "*", features = ["derive"] }
serde_json = "*"
tokio = { version = "*", features = ["full"] }
tower = { version = "*", features = ["util"] }
tower-http = { version = "*", features = ["fs", "limit"] }

[dev-dependencies]
base64 = "*"
ico = "*"
