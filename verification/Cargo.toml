[package]
name = "link_fixer"
version = "0.1.0"
edition = "2021"
publish = false

[dependencies]
itertools = "0.14"
regex = "1"
serenity = "0.12"
tokio = { version = "1", features = ["macros", "rt-multi-thread", "sync"] }
