[package]
name = "sqlite_instrument"
version = "0.1.0"
edition = "2021"
publish = false

[dependencies]
rusqlite = { version = "*", features = ["trace", "loadable_extension"] }
thiserror = "*"
