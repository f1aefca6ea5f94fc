[package]
name = "plist_ext"
version = "0.1.0"
edition = "2021"
publish = false

[dependencies]
plist = { version = "1", default-features = false }
