[package]
name = "aquilla"
version = "0.1.0"
edition = "2021"
publish = false

[dependencies]
aes-gcm = "0.10"
argon2 = "0.5"
axum = { version = "0.7", features = ["ws"] }
cpal = "0.15"
dirs = "5"
futures-util = "0.3"
hex = "0.4"
hidapi = "2"
hkdf = "0.12"
hyper = { version = "1", features = ["http1", "server"] }
hyper-util = { version = "0.1", features = ["tokio"] }
log = "0.4"
mime_guess = "2"
rand = "0.8"
rcgen = "0.13"
rusqlite = { version = "0.31", features = ["bundled"] }
rust-embed = "8"
rustls = { version = "0.23", default-features = false, features = ["ring", "std", "tls12", "logging"] }
rustls-pemfile = "2"
serde = { version = "1", features = ["derive"] }
serde_json = "1"
sha2 = "0.10"
tokio = { version = "1", features = ["full"] }
tokio-rustls = { version = "0.26", default-features = false, features = ["ring", "logging", "tls12"] }
tower = "0.4"
tower-http = { version = "0.5", features = ["cors"] }
tower-service = "0.3"
x25519-dalek = "2"
zeroize = "1"
