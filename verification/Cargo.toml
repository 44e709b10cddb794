[package]
name = "agent_first_slug"
version = "0.1.0"
edition = "2021"
publish = false

[dependencies]
unicode-general-category = "=1.1.0"
agent-first-data = "=0.22.0"
clap = { version = "=4.6.7", features = ["derive"] }
serde_json = "=1.0.154"
