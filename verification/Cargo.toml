[package]
name = "s3sh"
version = "0.1.0"
edition = "2021"
publish = false

[dependencies]
anyhow = "1"
aws-config = "*"
aws-sdk-s3 = "*"
clap = { version = "4", features = ["derive"] }
colored = "*"
indicatif = "*"
mime_guess = "*"
tabled = "*"
tokio = { version = "1", features = ["macros", "rt-multi-thread"] }
