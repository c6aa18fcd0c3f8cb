[package]
name = "bladefall"
version = "0.1.0"
edition = "2021"
publish = false

[dependencies]
ascon = "*"
rand_core = { version = "0.6", features = ["getrandom"] }
embedded-graphics = "0.8"
itoa = "1"
