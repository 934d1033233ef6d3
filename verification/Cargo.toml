[package]
name = "clash_inbound"
version = "0.1.0"
edition = "2021"
publish = false

[dependencies]
aes-gcm = "=0.10.3"
argon2 = "=0.5.3"
base64 = "=0.22.1"
blake2 = "=0.10.6"
bytes = "=1.12.1"
http = "=1.5.0"
quinn-proto = { version = "=0.11.19", default-features = false, features = ["rustls-ring"] }
rand = "=0.9.5"
rustls-pemfile = "=2.2.0"
sha2 = "=0.10.9"
url = "=2.5.8"
uuid = "=1.29.0"
x509-parser = "=0.18.1"
futures = "=0.3.34"
h3 = "=0.0.8"
h3-quinn = "=0.0.10"
hickory-resolver = "=0.26.3"
quinn = { version = "=0.11.12", default-features = false, features = ["runtime-tokio", "rustls-ring"] }
rcgen = { version = "=0.14.10", default-features = false, features = ["ring", "pem", "crypto"] }
reqwest = { version = "=0.12.28", default-features = false, features = ["rustls-tls", "json"] }
chrono = { version = "=0.4.45", default-features = false, features = ["clock", "std"] }
rustls-acme = { version = "=0.15.4", default-features = false, features = ["ring", "tls12", "webpki-roots"] }
serde = { version = "=1.0.229", features = ["derive"] }
serde_json = "=1.0.154"
serde_yaml = "=0.9.34"
tokio = { version = "=1.54.1", features = ["full"] }
tokio-tungstenite = "=0.30.0"
tokio-util = { version = "=0.7.20", features = ["codec", "compat"] }
tracing = "=0.1.44"
webpki-roots = "=1.0.10"
