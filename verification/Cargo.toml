[package]
name = "faf-ml-training"
version = "0.1.0"
edition = "2021"
publish = false

[dependencies]
anyhow = "1"
axum = { version = "0.8", features = ["ws"] }
chrono = { version = "0.4", features = ["serde"] }
futures = "0.3"
serde = { version = "1", features = ["derive"] }
serde_json = "1"
tokio = { version = "1", features = ["full"] }
tokio-tungstenite = "0.26"
uuid = { version = "1", features = ["v4", "serde"] }
wasm-bindgen = "0.2"
web-sys = { version = "0.3", features = ["CloseEvent", "Event", "EventTarget", "MessageEvent", "WebSocket"] }
