[package]
name = "lili_modeler"
version = "0.1.0"
edition = "2021"
publish = false

[dependencies]
base64 = "=0.22.1"
bincode = "=1.3.3"
glam = { version = "=0.34.2", features = ["serde"] }
gltf = { version = "=1.4.1", default-features = false, features = ["utils", "names"] }
parking_lot = "=0.12.5"
serde = { version = "=1.0.229", features = ["derive"] }
serde_json = "=1.0.154"
uuid = { version = "=1.29.1", features = ["v4", "serde"] }
