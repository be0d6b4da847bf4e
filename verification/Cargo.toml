[package]
name = "yah"
version = "0.1.0"
edition = "2021"
publish = false

[dependencies]
blake3 = "1"
chrono = "0.4"
clap = { version = "4", features = ["derive"] }
libc = "0.2"
rand = "0.9"
rand_chacha = "0.9"
schemars = "1"
serde = { version = "1", features = ["derive"] }
serde_json = { version = "1", features = ["raw_value"] }
serde_json_canonicalizer = "0.3"

[dev-dependencies]
tempfile = "3"
