[package]
name = "rgain"
version = "0.1.0"
edition = "2021"
publish = false

[dependencies]
clap = { version = "4", features = ["derive"] }
crossbeam-channel = "0.5"
ebur128 = "*"
hex = "0.4"
lofty = "*"
rayon = "1"
serde = { version = "1", features = ["derive"] }
serde_json = "1"
symphonia = { version = "*", features = ["mp3"] }
tracing = "0.1"
tracing-subscriber = { version = "0.3", features = ["env-filter", "local-time"] }
