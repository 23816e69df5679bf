[package]
name = "shared_lib"
version = "0.1.0"
edition = "2021"
publish = false

[dependencies]
bitflags = "2"
crossbeam-queue = { version = "0.3", default-features = false, features = ["alloc"] }
lazy_static = "1"
log = "0.4"
pc-keyboard = "0.7"
spin = "0.9"
