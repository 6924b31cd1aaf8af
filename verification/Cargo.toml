[package]
name = "psr"
version = "0.1.0"
edition = "2021"
publish = false

[dependencies]
crossterm = "0.26"
ratatui = "0.22"
sysinfo = "0.29"
tokio = { version = "1", features = ["rt-multi-thread", "macros", "sync", "time"] }
