[package]
name = "sparseio"
version = "0.1.0"
edition = "2021"
publish = false

[dependencies]
async-trait = "=0.1.92"
bincode = { version = "=2.0.1", features = ["serde"] }
bytes = "=1.12.1"
futures = "=0.3.34"
futures-timer = "=3.0.4"
hex = "=0.4.3"
opendal = { version = "*", default-features = false, features = ["services-memory"] }
parking_lot = "=0.12.5"
reqwest = { version = "=0.12.28", default-features = false }
serde = { version = "=1.0.229", features = ["derive"] }
sha2 = "=0.10.9"
thiserror = "=2.0.21"
tokio = { version = "=1.54.1", features = ["sync", "rt", "rt-multi-thread", "macros", "fs", "io-util", "time"] }
