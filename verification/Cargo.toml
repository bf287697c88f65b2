[package]
name = "bsd-xtcp"
version = "0.1.0"
edition = "2021"
publish = false

[dependencies]
anyhow = "1"
libc = "0.2"
serde = { version = "1", features = ["derive"] }
serde_json = "1"
hostname = "0.4"
tiny_http = "0.12"
thiserror = "2"
