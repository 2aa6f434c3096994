[package]
name = "vim_telegam"
version = "0.1.0"
edition = "2021"
publish = false

[dependencies]
anyhow = "1"
chrono = "0.4"
crossterm = { version = "0.28", features = ["event-stream"] }
directories = "5"
futures = "0.3"
grammers-client = "0.7"
grammers-tl-types = "0.7"
image = { version = "0.25", default-features = false, features = ["gif", "jpeg", "png", "webp"] }
nucleo = "0.5"
ratatui = "0.29"
ratatui-image = { version = "5", default-features = false, features = ["crossterm"] }
rpassword = "7"
serde = { version = "1", features = ["derive"] }
tokio = { version = "1", features = ["full"] }
toml = "0.8"
tracing = "0.1"
tracing-appender = "0.2"
tracing-subscriber = { version = "0.3", features = ["env-filter"] }
tui-textarea = "0.7"
unicode-width = "0.2"
