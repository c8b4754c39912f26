[package]
name = "tapt"
version = "0.1.0"
edition = "2021"
publish = false

[dependencies]
peekmore = "*"
derive_more = { version = "*", features = ["display", "is_variant", "unwrap"] }
