[package]
name = "serendip"
version = "0.1.0"
edition = "2021"
publish = false

[dependencies]
prost = "*"
zerocopy = "0.8"
zip = { version = "*", default-features = false, features = ["deflate"] }
serde = { version = "1", features = ["derive"] }
serde_json = "1"
