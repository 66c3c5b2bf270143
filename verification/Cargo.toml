[package]
name = "smc-assembler"
version = "0.1.0"
edition = "2021"
publish = false

[dependencies]
arbitrary-int = "1"
anyhow = "1"
clap = { version = "4", features = ["derive"] }
strum = { version = "0.27", features = ["derive"] }
strum_macros = "0.27"
thiserror = "2"
tokio = { version = "1", features = ["io-std", "macros", "rt-multi-thread", "sync"] }
tower-lsp = "0.20"
tracing = { version = "0.1", features = ["attributes"] }
