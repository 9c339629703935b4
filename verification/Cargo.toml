[package]
name = "chronos"
version = "0.1.0"
edition = "2021"
publish = false

[dependencies]
mime_guess = "=2.0.5"
sqlx = { version = "=0.9.0", default-features = false, features = ["sqlite", "runtime-tokio", "migrate"] }
tokio = { version = "=1.54.1", features = ["macros", "rt-multi-thread", "net"] }
tokio-util = "=0.7.20"
axum = { version = "=0.8.9", default-features = false, features = ["tokio", "http1"] }
ratatui = "=0.30.2"
crossterm = "=0.29.0"
chrono = "=0.4.45"
color-eyre = { version = "=0.6.5", default-features = false }
open = "=5.4.5"
rust-embed = { version = "=8.13.0", features = ["interpolate-folder-path"] }
