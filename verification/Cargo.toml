[package]
name = "grpc-webrtc-rsbridge"
version = "0.1.0"
edition = "2021"
publish = false

[dependencies]
async-tungstenite = { version = "*", features = ["tokio-runtime"] }
clap = { version = "4", features = ["derive"] }
env_logger = "0.11"
futures = "0.3"
gst-plugin-webrtc = { version = "0.13", default-features = false }
gstreamer = "0.23"
gstreamer-webrtc = "0.23"
log = "0.4"
prost = "0.13"
r2r = "*"
regex = "1"
serde_json = "1"
signal-hook = "0.3"
tokio = { version = "1", features = ["full"] }
tonic = "0.12"
uuid = { version = "1", features = ["v4"] }
