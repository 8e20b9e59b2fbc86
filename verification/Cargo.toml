[package]
name = "media_engine"
version = "0.1.0"
edition = "2021"
publish = false

[dependencies]
base64 = "=0.23.1"
bytes = "*"
cpal = "*"
image = { version = "=0.25.10", default-features = false, features = ["jpeg", "png"] }
libspa = "*"
openh264 = "*"
opus = "*"
pipewire = "*"
ringbuf = "*"
rubato = "*"
serde = { version = "*", features = ["derive"] }
serde_json = "*"
tokio = { version = "*", features = ["rt-multi-thread", "sync", "net", "time", "io-util", "macros"] }
webrtc = "=0.14.0"
