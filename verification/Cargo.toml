[package]
name = "xwin_test"
version = "0.1.0"
edition = "2021"
publish = false

[dependencies]
anyhow = "*"
cargo-options = "*"
clap = { version = "*", features = ["derive"] }
