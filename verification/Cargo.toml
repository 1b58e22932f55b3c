[package]
name = "dirscan"
version = "0.1.0"
edition = "2021"
publish = false

[dependencies]
bytesize = "1"
dirs-next = "2"
serde = { version = "1", features = ["derive"] }
