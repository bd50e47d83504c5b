[package]
name = "move-package-alt"
version = "0.1.0"
edition = "2021"
publish = false

[dependencies]
petgraph = "0.8"
thiserror = "1.0"
