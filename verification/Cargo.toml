[package]
name = "nexus_core"
version = "0.1.0"
edition = "2021"
publish = false

[dependencies]
chrono = "*"
dashmap = "*"
notify = "*"
num_cpus = "*"
once_cell = "*"
parking_lot = "*"
rayon = "*"
serde = { version = "*", features = ["derive"] }
sha2 = "*"
tantivy = "*"
thiserror = "*"
walkdir = "*"
xxhash-rust = { version = "*", features = ["xxh3"] }

[dev-dependencies]
tempfile = "*"
