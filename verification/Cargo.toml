[package]
name = "ipcc-data"
version = "0.1.0"
edition = "2021"
publish = false

[dependencies]
anyhow = "1"
binrw = "*"
derive_more = { version = "*", features = ["display"] }
indexmap = "2"
zerocopy = { version = "0.8", features = ["derive"] }
