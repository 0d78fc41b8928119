[package]
name = "neobot"
version = "0.1.0"
edition = "2021"
publish = false

[dependencies]
anyhow = "1"
async-recursion = "1"
azalea = { version = "*", default-features = false }
discord-webhook-rs = { version = "*", default-features = false }
fastrand = "2"
otp = "*"
parking_lot = "0.12"
rand = "0.9"
regex = "1"
tokio = { version = "1", features = ["rt-multi-thread", "macros", "sync", "time"] }
