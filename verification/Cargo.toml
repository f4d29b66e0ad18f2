[package]
name = "nfs"
version = "0.1.0"
edition = "2021"
publish = false

[dependencies]
rand = "0.8"
libc = "0.2"
tokio = { version = "1", features = ["full"] }
tracing = "0.1"
vfs = "0.12"
serde = { version = "1", features = ["derive"] }
async-trait = "0.1"
futures = "0.3"
socket2 = { version = "0.5", features = ["all"] }
tokio-util = { version = "0.7", features = ["codec"] }
tokio-stream = "0.1"
rustls = { version = "0.23", default-features = false, features = ["ring", "std", "tls12", "logging"] }
rustls-pemfile = "2"
tokio-rustls = { version = "0.26", default-features = false, features = ["ring", "tls12", "logging"] }
