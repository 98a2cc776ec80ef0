[package]
name = "pui"
version = "0.1.0"
edition = "2021"
publish = false

[dependencies]
anyhow = "=1.0.104"
crossterm = { version = "=0.29.0", features = ["event-stream"] }
etcetera = "=0.11.0"
futures = "=0.3.34"
jiff = "=0.2.38"
pueue-lib = "=0.31.1"
ratatui = { version = "=0.30.2", features = ["unstable-rendered-line-info"] }
serde = { version = "=1.0.229", features = ["derive"] }
tico = "=2.0.0"
tokio = { version = "=1.53.2", features = ["rt-multi-thread", "macros", "time"] }
toml = "=1.1.7"
