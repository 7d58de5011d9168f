[package]
name = "ditherpunker"
version = "0.1.0"
edition = "2021"
publish = false

[dependencies]
rayon = "=1.12.0"
multiversion = { version = "=0.9.0", features = ["target-features"] }
image = "=0.25.10"
json = "=0.12.4"

[dev-dependencies]
rand = "=0.10.3"
