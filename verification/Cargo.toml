[package]
name = "rasm"
version = "0.1.0"
edition = "2021"
publish = false

[dependencies]
resize = "*"
rgb = "*"
png = "*"
jpeg-encoder = "*"
zune-png = "*"
zune-jpeg = "*"
zune-core = "*"
file-format = "*"
serde = { version = "*", features = ["derive"] }
toml = "*"
svg = "*"
swash = "*"
zeno = "*"
