[package]
name = "ssb_resource"
version = "0.1.0"
edition = "2021"
publish = false

[dependencies]
vpk0 = "*"
anyhow = "*"
structopt = "*"
