[package]
name = "wakeup"
version = "0.1.0"
edition = "2021"
publish = false

[dependencies]
hex = "0.4"
clap = "3"
directories-next = "2"
serde = { version = "1", features = ["derive"] }
toml = "*"
