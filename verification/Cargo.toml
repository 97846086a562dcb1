[package]
name = "flowcase_upload_server"
version = "0.1.0"
edition = "2021"
publish = false

[dependencies]
anyhow = "1"
axum = { version = "0.7", features = ["multipart"] }
axum-server = { version = "0.7", features = ["tls-rustls"] }
base64 = "0.22"
bytes = "1"
clap = { version = "4", features = ["derive"] }
nix = { version = "0.29", features = ["fs"] }
rcgen = "0.13"
rustls = "0.23"
rustls-pemfile = "2"
tokio = { version = "1", features = ["full"] }
tower-http = { version = "0.6", features = ["limit"] }
tracing = "0.1"
tracing-subscriber = { version = "0.3", features = ["env-filter"] }
