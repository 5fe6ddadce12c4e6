[package]
name = "gba_core"
version = "0.1.0"
edition = "2021"
publish = false

[dependencies]
gba = { version = "0.14", default-features = false }
heapless = "0.7"
paste = "1"
