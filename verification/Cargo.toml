[package]
name = "lair_config"
version = "0.1.0"
edition = "2021"
publish = false

[dependencies]
sodoken = "*"
dunce = "1"
hc_seed_bundle = "*"
url = "2"
tokio = { version = "1", default-features = false, features = ["rt"] }

[dev-dependencies]
tempdir = "0.3"
