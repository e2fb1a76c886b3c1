[package]
name = "mibee-eye"
version = "0.3.0"
edition = "2021"
publish = false

[dependencies]
async-stream = "0.3"
async-trait = "0.1"
axum = { version = "0.7", features = ["multipart"] }
gb28181-rs = "*"
hex = "0.4"
image = { version = "0.25", default-features = false, features = ["jpeg"] }
libc = "0.2"
log = "0.4"
md-5 = "0.10"
metrics = "*"
onvif-device-rs = "*"
rand = "0.8"
serde = { version = "1", features = ["derive"] }
serde_json = "1"
shiguredo_v4l2 = "*"
tokio = { version = "1", features = ["full"] }
toml = "0.8"
