[package]
name = "gemini_stream"
version = "0.1.0"
edition = "2021"
publish = false

[dependencies]
serde_json = "=1.0.151"
reqwest = { version = "=0.13.5", default-features = false, features = ["json", "query", "stream"] }
reqwest-streams = { version = "=0.20.0", features = ["json"] }
tokio = { version = "=1.53.2", features = ["macros", "rt-multi-thread"] }
futures-util = "=0.3.34"
atty = "=0.2.14"
chrono = "=0.4.45"
slog = "=2.8.2"
slog-term = "=2.9.2"
slog-async = "=2.8.0"
