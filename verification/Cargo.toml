[package]
name = "tracer"
version = "0.1.0"
edition = "2021"
publish = false

[dependencies]
anyhow = "1"
crossbeam = "0.8"
crossbeam-channel = "0.5"
csv = "1"
dotenv = "0.15"
num_cpus = "1"
pico-args = "0.5"
pnet = "*"
rand = "=0.8.8"
rusqlite = { version = "*", features = ["bundled"] }
serde = { version = "1", features = ["derive"] }
ureq = { version = "2", default-features = false, features = ["json"] }
uuid = { version = "=1.27.0", features = ["v4"] }
