[package]
name = "midi-mapper-linux"
version = "0.1.0"
edition = "2021"
publish = false

[dependencies]
alsa = "*"
ctrlc = "*"
dirs = "*"
gtk4 = "*"
serde = { version = "1", features = ["derive"] }
serde_json = "1"
