[package]
name = "icode_cli"
version = "0.1.0"
edition = "2021"
publish = false

[dependencies]
unicode-width = "=0.2.0"
crossterm = "=0.28.1"
ratatui = "=0.29.0"
rustyline = "=15.0.0"
serde = { version = "=1.0.229", features = ["derive"] }
serde_json = "=1.0.154"
tracing = "=0.1.44"
tracing-subscriber = { version = "=0.3.23", features = ["env-filter", "json", "time"] }
tracing-appender = "=0.2.5"
