[package]
name = "kaiyote"
version = "0.1.0"
edition = "2021"
publish = false

[dependencies]
radix_trie = "*"
axum = "*"
clap = { version = "*", features = ["derive"] }
reqwest = { version = "*", default-features = false }
tokio = { version = "*", features = ["macros", "rt-multi-thread", "net", "sync"] }
