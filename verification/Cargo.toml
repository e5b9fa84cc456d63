[package]
name = "pocket_calibre"
version = "0.1.0"
edition = "2021"
publish = false

[dependencies]
image = { version = "0.25", default-features = false, features = ["jpeg"] }
serde = { version = "1", features = ["derive"] }
toml = "0.9"
inkview = "0.3"
