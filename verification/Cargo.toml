[package]
name = "embedded_text"
version = "0.1.0"
edition = "2021"
publish = false

[dependencies]
ansi-parser = { version = "0.8", default-features = false }
az = "1"
embedded-graphics = "0.7"
object-chain = "0.1"
