[package]
name = "pos_accounting"
version = "0.1.0"
edition = "2021"
publish = false

[dependencies]
anyhow = "1"
log = "0.4"
rand = "0.8"
rusqlite = { version = "0.29", features = ["bundled"] }
thiserror = "1"
