[package]
name = "remu_sim"
version = "0.1.0"
edition = "2021"
publish = false

[dependencies]
sha2 = "0.10"
indicatif = "0.17"
libloading = "0.8"
unicorn-engine = "2"
