[package]
name = "ffmarketdb"
version = "0.1.0"
edition = "2021"
publish = false

[dependencies]
axum = "0.6"
bson = "=2.15.0"
byteorder = "=1.5.0"
http = "0.2"
redis = { version = "0.23", features = ["tokio-comp", "connection-manager"] }
serde = { version = "1", features = ["derive"] }
serde_json = "1"
thiserror = "1"
time = "0.3"
tokio = { version = "1", features = ["macros", "rt-multi-thread"] }
tower = "0.4"
tower-http = { version = "0.4", features = ["cors", "trace", "compression-gzip"] }
tracing = "0.1"
tracing-subscriber = "0.3"
tungstenite = { version = "0.20", features = ["rustls-tls-webpki-roots"] }
zstd-safe = { version = "=6.0.6", features = ["std"] }
