[package]
name = "pippo"
version = "0.1.0"
edition = "2021"
publish = false

[dependencies]
x509-parser = "*"
magic-crypt = "*"
uuid = { version = "*", features = ["v4"] }
reqwest = { version = "*", default-features = false }
tokio = { version = "*", features = ["macros", "rt-multi-thread"] }
serde = { version = "*", features = ["derive"] }
serde_json = "*"
serde_yaml = "*"
clap = { version = "*", features = ["derive"] }
