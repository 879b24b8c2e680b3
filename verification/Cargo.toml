[package]
name = "aws_logs_tui"
version = "0.1.0"
edition = "2021"
publish = false

[dependencies]
aws-config = { version = "*", default-features = false }
aws-sdk-lambda = { version = "*", default-features = false }
clap = { version = "*", features = ["derive"] }
color-eyre = "*"
ratatui = "*"
tokio = { version = "*", features = ["macros", "rt-multi-thread"] }
