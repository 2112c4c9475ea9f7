[package]
name = "wayglance"
version = "0.1.0"
edition = "2021"
publish = false

[dependencies]
anyhow = "*"
async-channel = "*"
clap = { version = "*", features = ["derive"] }
gtk4 = "*"
gtk4-layer-shell = "*"
mlua = { version = "*", features = ["lua54", "vendored"] }
tracing = "*"
tracing-subscriber = { version = "*", features = ["env-filter"] }
