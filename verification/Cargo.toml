[package]
name = "connectorx"
version = "0.1.0"
edition = "2021"
publish = false

[dependencies]
anyhow = "1"
arrow = { version = "4", default-features = false }
chrono = "0.4"
csv = "1"
fehler = "1"
hex = "0.4"
log = "0.4"
ndarray = "0.15"
postgres = "0.19"
r2d2 = "0.8"
r2d2_mysql = "18"
regex = "1"
rusqlite = { version = "0.25", features = ["bundled"] }
rust_decimal = "1"
sqlparser = "0.9"
thiserror = "1"
