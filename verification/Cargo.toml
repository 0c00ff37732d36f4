[package]
name = "io_queue_rdma"
version = "0.1.0"
edition = "2021"
publish = false

[dependencies]
nix = "=0.23.2"
