[package]
name = "ketikin"
version = "0.1.0"
edition = "2021"
publish = false

[dependencies]
chrono = "0.4"
uuid = { version = "1", features = ["v4"] }
global-hotkey = "*"
serde = { version = "1", features = ["derive"] }
serde_json = "1"
dirs = "*"
log = "0.4"
thiserror = "*"
enigo = "*"
tokio = { version = "1", features = ["time", "rt"] }
