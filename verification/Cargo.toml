[package]
name = "caligula"
version = "0.1.0"
edition = "2021"
publish = false

[dependencies]
tokio = { version = "1", features = ["sync", "rt", "macros"] }
futures = "0.3"
tower = { version = "0.5", features = ["util"] }
bincode = "1"
bytes = "1"
serde = { version = "1", features = ["derive"] }
thiserror = "2"
tracing = "0.1"
tracing-subscriber = { version = "0.3", features = ["env-filter", "fmt"] }
tracing-panic = "0.1"
crossterm = "0.28"
clap = { version = "4", features = ["derive"] }
anyhow = "1"
