[package]
name = "rune"
version = "0.1.0"
edition = "2021"
publish = false

[dependencies]
runestick = "=0.8.0"
thiserror = "=1.0.69"
