[package]
name = "termsprite"
version = "0.1.0"
edition = "2021"
publish = false

[dependencies]
serde_json = "*"
crossterm = { version = "*", features = ["event-stream"] }
futures = "*"
futures-timer = "*"
tokio = { version = "*", features = ["macros", "rt-multi-thread"] }
