[package]
name = "peripheral_registry"
version = "0.1.0"
edition = "2021"
publish = false

[dependencies]
embedded-hal = { version = "=0.2.7", features = ["unproven"] }
once_cell = "=1.21.4"
