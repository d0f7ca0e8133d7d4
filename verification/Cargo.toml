[package]
name = "rust_less"
version = "0.2.4"
edition = "2021"
publish = false

[dependencies]
sourcemap = "*"
clap = "4"
regex = "1"
serde_json = "1"
lsp-server = "*"
lsp-types = "*"
