[package]
name = "support"
version = "0.1.0"
edition = "2021"
publish = false

[dependencies]
bitvec = "1"
clap = { version = "4", features = ["derive"] }
colored = "2"
guard = "0.5"
image = "0.24"
rctree = "0.5"
resvg = "0.30"
serde = { version = "1", features = ["derive"] }
serde_json = "1"
serde-xml-rs = "0.6"
svg = "0.13"
tiny-skia-path = "0.8"
zip = "0.6"
