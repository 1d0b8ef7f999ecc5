[package]
name = "workspace_serve"
version = "0.1.0"
edition = "2021"
publish = false

[dependencies]
bytes = "1"
h3 = "*"
h3-quinn = "*"
http = "1"
ipnet = "2"
quinn = { version = "0.11", default-features = false, features = ["runtime-tokio", "rustls-ring"] }
rustls = { version = "0.23", default-features = false, features = ["ring", "std", "tls12"] }
serde = { version = "1", features = ["derive"] }
serde_json = "1"
sha2 = "0.10"
tokio = { version = "1", features = ["full"] }
tokio-rustls = { version = "0.26", default-features = false, features = ["ring", "tls12"] }
