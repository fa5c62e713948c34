[package]
name = "grub_bootimage"
version = "0.1.0"
edition = "2021"
publish = false

[dependencies]
anyhow = "1"
cargo_metadata = "0.12"
json = "0.12"
toml = "0.5"
wait-timeout = "0.2"
