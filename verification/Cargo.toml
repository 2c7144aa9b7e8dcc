[package]
name = "neuro_note"
version = "0.1.0"
edition = "2021"
publish = false

[dependencies]
serde = { version = "*", features = ["derive"] }
serde_json = "*"
tokio = { version = "*", features = ["rt", "sync", "macros", "time"] }
tokio-tungstenite = { version = "*", features = ["rustls-tls-webpki-roots"] }
futures-util = "*"
reqwest = { version = "*", default-features = false, features = ["json", "rustls-tls"] }
chrono = "*"
dirs-next = "*"
hound = "*"
openrouter-rs = "*"
