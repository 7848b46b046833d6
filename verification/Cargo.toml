[package]
name = "mpe-plugin-grpc"
version = "0.1.0"
edition = "2021"
publish = false

[dependencies]
rand = "0.8"
http = "1"
prost = "0.13"
prost-types = "0.13"
prost-reflect = { version = "0.14", features = ["serde"] }
protox = "0.7"
tonic = { version = "0.12", default-features = false, features = ["prost", "transport", "tls", "tls-webpki-roots", "gzip"] }
tonic-reflection = "0.12"
tonic-health = "0.12"
tokio = { version = "1", features = ["full"] }
tokio-stream = { version = "0.1", features = ["net"] }
tokio-util = "0.7"
tower = { version = "0.4", default-features = false }
hyper-util = "0.1"
rustls = { version = "0.23", default-features = false, features = ["ring", "logging", "std", "tls12"] }
rustls-pemfile = "2"
tokio-rustls = { version = "0.26", default-features = false, features = ["ring", "logging", "tls12"] }
webpki-roots = "0.26"
serde = { version = "1", features = ["derive"] }
serde_json = { version = "1", features = ["preserve_order"] }
log = "0.4"
thiserror = "1.0"
chrono = "0.4"
tempfile = "3"
