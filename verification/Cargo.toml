[package]
name = "svdp"
version = "0.2.5"
edition = "2021"
publish = false

[dependencies]
serde = { version = "=1.0.229", features = ["derive"] }
serde_derive = "=1.0.229"
serde_json = "=1.0.154"
regex = "=1.13.1"
url = "=2.5.8"
ring = "=0.17.14"
data-encoding = "=2.11.1"
toml = "=0.5.11"
postgres = { version = "=0.19.14", features = ["with-serde_json-1"] }
r2d2 = "=0.8.10"
r2d2_postgres = "=0.18.2"
iron = "=0.6.1"
reqwest = { version = "=0.11.27", default-features = false, features = ["blocking"] }
rand = "=0.8.8"
time = "=0.1.45"
threadpool = "=1.8.1"
num_cpus = "=1.17.0"
lazy_static = "=1.5.1"
colored = "=2.2.0"
