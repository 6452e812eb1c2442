[package]
name = "waveform"
version = "0.1.0"
edition = "2021"
publish = false

[dependencies]
clap = "2"
env_logger = "*"
hound = "*"
image = { version = "*", default-features = false, features = ["png"] }
imageproc = "*"
log = "*"
serde = "*"
serde_derive = "*"
serde_json = "*"
