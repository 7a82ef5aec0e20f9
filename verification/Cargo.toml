[package]
name = "mpm"
version = "0.1.0"
edition = "2021"
publish = false

[dependencies]
nalgebra = "*"
serde = { version = "1", features = ["derive"] }
serde_json = "1"
clap = { version = "4", features = ["derive"] }
thiserror = "*"
tracing = "0.1"
tracing-subscriber = "0.3"
rayon = "1"
uuid = { version = "1", features = ["v4"] }
