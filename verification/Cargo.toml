[package]
name = "comlink"
version = "0.1.0"
edition = "2021"
publish = false

[dependencies]
clap = { version = "4", features = ["derive"] }
rmcp = { version = "3.4", features = ["server", "transport-io", "macros", "schemars"] }
rusqlite = { version = "*", features = ["bundled"] }
serde = { version = "1", features = ["derive"] }
serde_json = "1"
tempfile = "3"
tokio = { version = "1", features = ["rt", "macros", "time", "io-std"] }
which = "*"
