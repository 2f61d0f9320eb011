[package]
name = "callcheck"
version = "0.1.0"
edition = "2021"
publish = false

[dependencies]
serde = { version = "*", features = ["derive"] }
serde_json = "*"
csv = "*"
clap = { version = "*", features = ["derive"] }
chrono = "*"
tokio = { version = "*", features = ["process", "time", "macros", "rt-multi-thread"] }
nix = { version = "*", features = ["signal"] }
