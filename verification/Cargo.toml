[package]
name = "activity_report"
version = "0.1.0"
edition = "2021"
publish = false

[dependencies]
octocrab = { version = "=0.47.1", features = ["stream"] }
tokio = { version = "=1.53.2", features = ["rt-multi-thread", "macros"] }
chrono = "=0.4.45"
clap = { version = "=4.6.7", features = ["derive"] }
futures = "=0.3.34"
