[package]
name = "importedby"
version = "0.1.0"
edition = "2021"
publish = false

[dependencies]
scraper = "*"
clap = { version = "*", features = ["derive"] }
futures = "*"
log = "*"
reqwest = { version = "*", default-features = false }
simple_logger = "*"
tokio = { version = "*", features = ["macros", "rt-multi-thread"] }
