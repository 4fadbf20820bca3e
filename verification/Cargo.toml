[package]
name = "hextwitch"
version = "0.1.0"
edition = "2021"
publish = false

[dependencies]
chrono = "*"
hexchat = "*"
parking_lot = "*"
