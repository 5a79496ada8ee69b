[package]
name = "embedded_overlay"
version = "0.1.0"
edition = "2021"
publish = false

[dependencies]
embedded-storage = "0.3"
embedded-storage-async = "0.4"
embassy-sync = "*"
static_cell = "2"
cortex-m = "0.7"

[dev-dependencies]
sequential-storage = "*"
