[package]
name = "xv0"
version = "0.1.0"
edition = "2021"
publish = false

[dependencies]
pc-keyboard = "=0.9.0"
font8x8 = "=0.3.1"
crossbeam-queue = "=0.3.14"
arrayvec = "=0.7.8"
spin = "=0.12.3"
conquer-once = "=0.4.0"
futures-util = "=0.3.34"
x86_64 = { version = "=0.15.5", default-features = false, features = ["instructions"] }
neurodoom = "=0.6.7"
