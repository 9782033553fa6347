[package]
name = "spwn_lsp"
version = "0.1.0"
edition = "2021"
publish = false

[dependencies]
lsp-types = "=0.91.1"
lspower = "=1.5.0"
spwn = "=0.0.6"
tokio = { version = "=1.54.1", features = ["io-std", "macros", "rt-multi-thread", "sync"] }
