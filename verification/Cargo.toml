[package]
name = "witx_codegen"
version = "0.1.0"
edition = "2021"
publish = false

[dependencies]
witx = "0.9.1"
