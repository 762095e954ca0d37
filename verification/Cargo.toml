[package]
name = "aa_player"
version = "0.1.0"
edition = "2021"
publish = false

[dependencies]
byteorder = "1"
cpal = "0.15"
futures = "0.3"
glib = "0.20"
gstreamer = "0.23"
gstreamer-app = "0.23"
gstreamer-base = "0.23"
gstreamer-video = "0.23"
log = "0.4"
nusb = "0.1"
prost = "0.13"
rustls = { version = "0.23", default-features = false, features = ["std", "tls12", "ring"] }
simple_logger = "5"
tokio = { version = "1", features = ["full"] }
tokio-util = "0.7"
