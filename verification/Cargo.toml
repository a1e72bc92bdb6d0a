[package]
name = "drsym_launcher"
version = "0.1.0"
edition = "2021"
publish = false

[dependencies]
reqwest = { version = "=0.11.27", default-features = false, features = ["blocking"] }
serde = { version = "=1.0.229", features = ["derive"] }
serde_json = "=1.0.151"
shlex = "=1.3.0"
zip = { version = "0.6", default-features = false, features = ["deflate"] }
