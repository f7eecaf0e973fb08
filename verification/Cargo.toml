[package]
name = "signal_tty"
version = "0.1.0"
edition = "2021"
publish = false

[dependencies]
anyhow = "*"
async-trait = "*"
chrono = { version = "*", default-features = false, features = ["clock"] }
crossterm = "*"
directories = "*"
image = { version = "*", default-features = false, features = ["png", "jpeg", "gif", "webp", "bmp"] }
ratatui = "*"
ratatui-image = "*"
rusqlite = { version = "*", features = ["bundled"] }
serde = { version = "*", features = ["derive"] }
serde_json = "*"
thiserror = "*"
tokio = { version = "*", features = ["rt-multi-thread", "macros", "sync", "time", "io-util", "process"] }
uuid = { version = "*", features = ["v4"] }
