[package]
name = "agent_monitor"
version = "0.1.0"
edition = "2021"
publish = false

[dependencies]
uuid = "1"
crossterm = "0.28"
ratatui = "0.29"
tokio = { version = "1", features = ["rt", "macros"] }
tracing = "0.1"
