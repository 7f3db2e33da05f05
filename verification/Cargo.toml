[package]
name = "oxyroot"
version = "0.1.0"
edition = "2021"
publish = false

[dependencies]
regex = "*"
flate2 = "*"
lz4_flex = "*"
xxhash-rust = { version = "*", features = ["xxh64"] }
zstd = "*"
xz2 = "*"
