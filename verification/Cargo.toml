[package]
name = "site_crawler"
version = "0.1.0"
edition = "2021"
publish = false

[dependencies]
clap = { version = "=4.6.7", features = ["derive"] }
colored = "=2.2.0"
regex = "=1.13.1"
reqwest = "=0.12.28"
tokio = { version = "=1.54.1", features = ["macros", "rt-multi-thread", "sync", "time"] }
