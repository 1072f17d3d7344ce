[package]
name = "puzzle"
version = "0.1.0"
edition = "2021"
publish = false

[dependencies]
ansi-to-tui = "7.0"
anyhow = "1.0"
chrono = "0.4"
codex-app-server-protocol = "0.63"
codex-protocol = "0.63"
color-eyre = "0.6"
crossterm = { version = "0.28", features = ["event-stream"] }
futures-util = "0.3"
pulldown-cmark = { version = "0.9", default-features = false }
ratatui = "0.29"
serde = { version = "1.0", features = ["derive"] }
serde_json = "1.0"
textwrap = "0.16"
tokio = { version = "1", features = ["full"] }
tokio-tungstenite = "0.28"
tracing = "0.1"
tui-textarea = "0.7"
unicode-segmentation = "1.12"
unicode-width = "0.2"
uuid = { version = "1", features = ["v4"] }
