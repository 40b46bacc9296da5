[package]
name = "tradeboard"
version = "0.1.0"
edition = "2021"
publish = false

[dependencies]
chrono = "0.4"
crossterm = "0.27"
ratatui = "0.26"
rusqlite = "0.31"
serde_json = "1"
tungstenite = "0.21"
