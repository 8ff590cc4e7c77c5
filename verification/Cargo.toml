[package]
name = "ls_willette"
version = "0.1.0"
edition = "2021"
publish = false

[dependencies]
chrono = "*"
chrono-tz = "*"
clap = { version = "*", features = ["derive"] }
terminal_size = "*"
tracing = "*"
tracing-appender = "*"
tracing-subscriber = "*"
