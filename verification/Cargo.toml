[package]
name = "winfetch"
version = "0.1.0"
edition = "2021"
publish = false

[dependencies]
chrono = { version = "0.4", default-features = false, features = ["clock", "std"] }
serde = { version = "1", features = ["derive"] }
term_size = "0.3"
tokio = { version = "1", features = ["macros", "rt-multi-thread"] }
winreg = "*"
wmi = "*"
