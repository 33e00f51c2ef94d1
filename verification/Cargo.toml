[package]
name = "fsd_core"
version = "0.1.0"
edition = "2021"
publish = false

[dependencies]
libc = "=0.2.191"
serde = { version = "=1.0.229", features = ["derive"] }
opencv = { version = "*", default-features = false, features = ["calib3d"] }
ort = { version = "2.0.0-rc.10", default-features = false }
