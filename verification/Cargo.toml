[package]
name = "sequential_storage"
version = "0.1.0"
edition = "2021"
publish = false

[dependencies]
embedded-storage = "0.3"
embedded-storage-async = "0.4"
