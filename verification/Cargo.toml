[package]
name = "unimap"
version = "0.1.0"
edition = "2021"
publish = false

[dependencies]
chrono = "*"
clap = { version = "*", features = ["derive"] }
futures = "*"
hickory-resolver = "*"
log = "*"
prettytable-rs = "*"
rayon = "*"
