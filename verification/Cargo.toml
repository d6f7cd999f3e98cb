[package]
name = "ocr_translate"
version = "1.10.3"
edition = "2021"
publish = false

[dependencies]
anyhow = "1"
arboard = "3"
ashpd = { version = "=0.13.13", default-features = false, features = ["tokio", "global_shortcuts", "screencast", "screenshot"] }
chrono = { version = "0.4", default-features = false, features = ["clock"] }
clap = { version = "4", features = ["derive"] }
dirs = "5"
egui = { version = "0.28", default-features = false, features = ["default_fonts"] }
fd-lock = "4"
futures-util = { version = "0.3", default-features = false }
global-hotkey = "0.6"
image = { version = "=0.25.10", default-features = false, features = ["png", "jpeg"] }
reqwest = { version = "0.12", default-features = false, features = ["blocking", "json", "cookies", "rustls-tls"] }
rust-ini = "=0.21.3"
serde = { version = "1", features = ["derive"] }
serde_json = "=1.0.154"
serde_yaml = "0.9"
tokio = { version = "1", features = ["rt"] }
tracing = "0.1"
tracing-subscriber = { version = "0.3", features = ["env-filter"] }
x11rb = { version = "0.13", features = ["randr"] }
