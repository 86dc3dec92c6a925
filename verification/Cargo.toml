[package]
name = "dashboard"
version = "0.1.0"
edition = "2021"
publish = false

[dependencies]
ab_glyph = "0.2"
color-eyre = "0.6"
crossbeam-channel = "0.5"
crossterm = "0.27"
dotenv = "0.15"
futures = "0.3"
imageproc = { version = "0.25", default-features = false }
once_cell = "1"
ratatui = "0.26"
ratatui-image = { version = "1.0", default-features = false }
reqwest = { version = "0.12", default-features = false }
serde = { version = "1", features = ["derive"] }
serde_json = "1"
tokio = { version = "1", features = ["full"] }
tokio-tungstenite = "0.21"
tui-big-text = "0.4"
