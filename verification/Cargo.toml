[package]
name = "talsi"
version = "0.1.0"
edition = "2021"
publish = false

[dependencies]
either = "1"
eyre = "0.6"
pyo3 = { version = "0.26", features = ["abi3-py39", "either"] }
rayon = "1"
rusqlite = { version = "*", features = ["bundled", "limits"] }
smallvec = "1"
snap = "1"
tracing = "0.1"
tracing-subscriber = "0.3"
tracing-tree = "*"
zstd = "0.13"
