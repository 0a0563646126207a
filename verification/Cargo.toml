[package]
name = "rublk"
version = "0.1.0"
edition = "2021"
publish = false

[dependencies]
clap = { version = "=4.6.7", features = ["derive"] }
io-uring = "=0.6.4"
libublk = "=0.2.2"
