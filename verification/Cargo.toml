[package]
name = "udp_mangler"
version = "0.1.0"
edition = "2021"
publish = false

[dependencies]
arc-swap = "*"
clap = { version = "*", features = ["derive"] }
ctrlc = "*"
derive_more = { version = "*", features = ["display", "error"] }
log = "*"
rand = "*"
simplelog = "*"
