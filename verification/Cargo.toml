[package]
name = "abi_lowering"
version = "0.1.0"
edition = "2021"
publish = false

[dependencies]
clap = { version = "*", features = ["cargo"] }
cranelift = "=0.135.5"
cranelift-module = "=0.135.5"
cranelift-object = "=0.135.5"
