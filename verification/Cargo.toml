[package]
name = "audiowaveform_rs"
version = "0.1.0"
edition = "2021"
publish = false

[dependencies]
hound = "*"
rayon = "*"
serde_json = "*"
