[package]
name = "pinboard_machine"
version = "0.1.0"
edition = "2021"
publish = false

[dependencies]
bounded-integer = { version = "=0.6.2", features = ["macro"] }
thiserror = "=2.0.21"
