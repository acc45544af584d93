[package]
name = "gung"
version = "0.1.0"
edition = "2021"
publish = false

[dependencies]
anyhow = "1"
async-trait = "0.1"
bincode = "2"
bytes = "1"
clap = { version = "4", features = ["derive"] }
directories-next = "2"
futures-util = { version = "0.3", features = ["sink"] }
hyper = { version = "1", features = ["http1", "server", "client"] }
hyper-util = { version = "0.1", features = ["tokio"] }
net-mux = "*"
parking_lot = "0.12"
pyo3 = "*"
pythonize = "*"
quinn = { version = "0.11", default-features = false, features = ["runtime-tokio", "rustls-ring", "log"] }
rand_set = "*"
rcgen = "*"
rustls = { version = "0.23", default-features = false, features = ["ring", "std", "logging", "tls12"] }
rustls-native-certs = "*"
semver = "1"
serde = { version = "1", features = ["derive"] }
serde_json = "1"
tokio = { version = "1", features = ["full"] }
tokio_kcp = "*"
tokio-rustls = { version = "0.26", default-features = false, features = ["ring", "logging", "tls12"] }
tokio-tungstenite = "*"
tokio-util = { version = "0.7", features = ["codec", "io"] }
toml = "*"
tracing = "0.1"
tracing-subscriber = { version = "0.3", features = ["env-filter"] }
uuid = { version = "1", features = ["v4"] }
