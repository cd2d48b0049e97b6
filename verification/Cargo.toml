[package]
name = "cargo-binutils"
version = "0.3.6"
edition = "2021"
publish = false

[dependencies]
anyhow = "1"
cargo_metadata = "0.18"
clap = "4"
lazy_static = "1"
regex = "1"
rustc-cfg = "0.5"
rustc-demangle = "0.1"
rustc_version = "0.4"
toml = "0.8"
