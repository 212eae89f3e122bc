[package]
name = "voice2prompt"
version = "0.1.0"
edition = "2021"
publish = false

[dependencies]
arboard = { version = "3", default-features = false }
clap = { version = "4", features = ["derive"] }
cpal = "0.15"
ctrlc = "3"
evdev = "0.13"
gtk = "0.18"
nix = { version = "0.29", features = ["fs"] }
tray-icon = "0.19"
ureq = "2"
whisper-rs = "0.14"
