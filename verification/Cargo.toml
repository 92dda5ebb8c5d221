[package]
name = "openvehiclediag"
version = "0.1.0"
edition = "2021"
publish = false

[dependencies]
hex = "=0.4.3"
serde = { version = "=1.0.229", features = ["derive"] }
serde_json = "=1.0.154"
serialport = { version = "=4.10.1", default-features = false }
nfd = "=0.0.4"
