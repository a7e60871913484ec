[package]
name = "real_cugan"
version = "0.1.0"
edition = "2021"
publish = false

[dependencies]
candle-core = "*"
candle-nn = "*"
clap = { version = "*", features = ["derive"] }
image = "*"
resize = "*"
rgb = "*"
tracing = "*"
tracing-subscriber = "*"
