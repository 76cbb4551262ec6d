[package]
name = "morse_codec"
version = "0.1.0"
edition = "2021"
publish = false

[dependencies]
clap = { version = "3", features = ["derive"] }
rppal = "0.14"
tokio = { version = "1", features = ["macros", "rt-multi-thread"] }
warp = "0.3"
