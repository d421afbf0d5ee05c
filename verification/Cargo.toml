[package]
name = "system_insights"
version = "0.1.0"
edition = "2021"
publish = false

[dependencies]
sysinfo = "0.29"
tui = "0.19"
crossterm = "0.25"
