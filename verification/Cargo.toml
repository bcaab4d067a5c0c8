[package]
name = "moda_core"
version = "0.1.0"
edition = "2021"
publish = false

[dependencies]
ring = "0.17"
tokio = { version = "1", default-features = false, features = ["sync"] }
serde = { version = "1", features = ["derive"] }
serde_json = "1"
signal-hook = "0.3"
tracing = "0.1"
tracing-subscriber = { version = "0.3", features = ["env-filter", "fmt"] }
windows-sys = { version = "0.48", features = ["Win32_Foundation", "Win32_System_Threading"] }
