[package]
name = "userjs_updater"
version = "0.1.0"
edition = "2021"
publish = false

[dependencies]
chrono = "0.4"
dialoguer = "0.11"
reqwest = "0.12"
structopt = "0.3"
tokio = { version = "1", features = ["macros", "rt-multi-thread"] }
