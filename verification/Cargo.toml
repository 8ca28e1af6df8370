[package]
name = "commons"
version = "0.1.0"
edition = "2021"
publish = false

[dependencies]
bincode = "=1.3.3"
bufstream = "=0.1.4"
byteorder = "=1.5.0"
colored = "=2.2.0"
concrete = { version = "=0.2.1", features = ["shortints", "integers", "serde"] }
serde = { version = "=1.0.229", features = ["derive"] }
