[package]
name = "il2cpp_core"
version = "0.1.0"
edition = "2021"
publish = false

[dependencies]
object = "*"
anyhow = "*"
clap = { version = "4", features = ["derive"] }
tracing = "*"
tracing-subscriber = "*"
serde = { version = "1", features = ["derive"] }
serde_json = "1"
thiserror = "*"
