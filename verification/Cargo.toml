[package]
name = "cag"
version = "0.1.0"
edition = "2021"
publish = false

[dependencies]
aho-corasick = "*"
crossterm = "*"
ratatui = "*"
tracing = "*"
tracing-appender = "*"
tracing-subscriber = "*"
