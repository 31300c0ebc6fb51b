[package]
name = "qcdesigner"
version = "0.1.0"
edition = "2021"
publish = false

[dependencies]
tex2typst-rs = "=0.4.1"
anyhow = "=1.0.104"
