[package]
name = "blockuntu"
version = "0.1.0"
edition = "2021"
publish = false

[dependencies]
serde_json = "1"
sha2 = "0.10"
chrono = "0.4"
clap = { version = "4", features = ["derive"] }
libc = "0.2"
thiserror = "1"
