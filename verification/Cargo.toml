[package]
name = "cargo_gc"
version = "0.1.0"
edition = "2021"
publish = false

[dependencies]
anyhow = "=1.0.104"
cargo = "=0.92.0"
cargo-credential-libsecret = "=0.5.2"
cargo-credential-macos-keychain = "=0.4.17"
cargo-credential-wincred = "=0.4.17"
cargo-util = "=0.2.24"
cargo_metadata = "=0.23.1"
clap = { version = "=4.6.7", default-features = false, features = ["std", "derive", "help", "usage", "error-context"] }
humansize = "=2.1.3"
indicatif = { version = "=0.18.6", default-features = false }
kstring = "=2.0.0"
serde = { version = "=1.0.229", features = ["derive"] }
serde_json = "=1.0.154"
