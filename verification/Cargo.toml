[package]
name = "zielisp"
version = "0.1.0"
edition = "2021"
publish = false

[dependencies]
rustyline = "9"

[dev-dependencies]
nom = { version = "6", default-features = false, features = ["alloc"] }
