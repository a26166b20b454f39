[package]
name = "shuffle_writer"
version = "0.1.0"
edition = "2021"
publish = false

[dependencies]
ahash = "*"
rustc_apfloat = "*"
arrow = "*"
tokio = { version = "*", features = ["rt", "sync"] }
futures = "*"
async-trait = "*"
