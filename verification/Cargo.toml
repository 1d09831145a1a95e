[package]
name = "git_ai_commit_core"
version = "0.1.0"
edition = "2021"
publish = false

[dependencies]
reqwest = { version = "=0.13.5", features = ["json", "stream", "blocking"] }
serde = { version = "=1.0.229", features = ["derive"] }
serde_json = "=1.0.154"
toml = "=1.1.8"
clap = { version = "=4.6.7", features = ["derive"] }
crossterm = "=0.29.0"
futures = "=0.3.34"
tokio = { version = "=1.54.1", features = ["rt", "macros"] }
tempfile = "=3.27.0"
async-openai = { version = "=0.43.0", default-features = false, features = ["chat-completion-types", "response-types"] }
tiktoken-rs = "=0.12.1"
