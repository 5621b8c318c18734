[package]
name = "fzcomputerai"
version = "0.1.0"
edition = "2021"
publish = false

[dependencies]
ring = "=0.17.14"
serde_json = "=1.0.154"
serde = { version = "=1.0.229", features = ["derive"] }
rustls = { version = "=0.23.46", features = ["ring"] }
rcgen = "=0.13.2"
x509-parser = "=0.16.0"
time = "=0.3.55"
tokio = { version = "=1.54.1", features = ["rt", "net", "time"] }
instant-acme = "=0.8.5"
anyhow = "=1.0.104"
