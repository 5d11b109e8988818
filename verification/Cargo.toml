[package]
name = "homocrypt"
version = "0.1.0"
edition = "2021"
publish = false

[dependencies]
num-bigint = { version = "=0.4.8", features = ["rand"] }
num-integer = "=0.1.47"
num-traits = "=0.2.19"
num-prime = "=0.4.4"
num-modular = "=0.5.1"
rand = "=0.8.8"
