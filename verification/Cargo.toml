[package]
name = "bitwave"
version = "0.1.0"
edition = "2021"
publish = false

[dependencies]
byteorder = "1"
serde = { version = "1", features = ["derive"] }
thiserror = "1"
