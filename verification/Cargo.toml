[package]
name = "polysynth"
version = "0.1.0"
edition = "2021"
publish = false

[dependencies]
rustc-hash = "2.1"
wmidi = "4.0"
midir = "0.9"
rodio = { version = "0.17", default-features = false }
hound = "3.5"
ctrlc = "3.4"
