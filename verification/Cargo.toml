[package]
name = "certain"
version = "0.1.0"
edition = "2021"
publish = false

[dependencies]
base64 = "0.13"
chrono = "0.4"
futures = "0.3"
num_cpus = "1"
reqwest = { version = "0.11", default-features = false }
serde_json = "1"
tokio = { version = "1", features = ["rt-multi-thread", "time"] }
url = "2"
x509-parser = "*"
