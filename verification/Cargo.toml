[package]
name = "qltp_transport"
version = "0.1.0"
edition = "2021"
publish = false

[dependencies]
crc32fast = "1"
uuid = { version = "1", features = ["v4", "serde"] }
chrono = "0.4"
sha2 = "0.10"
serde = { version = "1", features = ["derive"] }
bincode = "1"
serde_json = "1"
num_cpus = "1"
libc = "0.2"
rand = "0.8"
