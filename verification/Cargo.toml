[package]
name = "io-pipe"
version = "0.1.0"
edition = "2021"
publish = false

[dependencies]
loole = "*"
futures-io = "*"

[dev-dependencies]
futures = "*"
