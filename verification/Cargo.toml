[package]
name = "aicommits"
version = "0.1.0"
edition = "2021"
publish = false

[dependencies]
ansi_term = "=0.12.1"
dialoguer = "=0.10.4"
log = "=0.4.34"
serde = { version = "=1.0.229", features = ["derive"] }
spinners-rs = "=2.3.0"
surf = "=2.3.2"
thiserror = "=1.0.69"
tokio = { version = "=1.54.1", features = ["macros", "rt-multi-thread"] }
