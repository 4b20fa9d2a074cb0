[package]
name = "tc-tui"
version = "0.1.0"
edition = "2021"
publish = false

[dependencies]
chrono = "0.4"
chrono-tz = "0.10"
ratatui = "0.29"
crossterm = "0.28"
ureq = { version = "2", features = ["json"] }
serde = { version = "1", features = ["derive"] }
toml = "0.8"
dirs = "5"
sysinfo = "0.33"
if-addrs = "0.13"
hostname = "0.4"
