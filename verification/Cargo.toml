[package]
name = "breach_tracker"
version = "0.1.0"
edition = "2021"
publish = false

[dependencies]
serde_json = "*"
serde = { version = "*", features = ["derive"] }
chrono = "*"
reqwest = { version = "*", default-features = false }
tokio = { version = "*", features = ["rt-multi-thread", "macros"] }
diesel = { version = "*", features = ["sqlite", "chrono"] }
dotenvy = "*"
