[package]
name = "rust_wintun"
version = "0.1.0"
edition = "2021"
publish = false

[dependencies]
etherparse = "0.13"
httparse = "1"
ctrlc = "3"
wintun = "*"
regex = "1"
clap = { version = "4", features = ["derive"] }
serde_json = "1"
tokio = { version = "1", features = ["macros", "rt-multi-thread"] }
reqwest = { version = "0.12", features = ["json"] }
