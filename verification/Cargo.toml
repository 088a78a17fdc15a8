[package]
name = "worker_registry"
version = "0.1.0"
edition = "2021"
publish = false

[dependencies]
actix = "=0.10.0"
