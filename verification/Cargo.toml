[package]
name = "mirro_rs"
version = "0.1.0"
edition = "2021"
publish = false

[dependencies]
unicode-width = "=0.1.14"
itertools = "=0.10.5"
log = "=0.4.34"
tokio = { version = "=1.54.1", features = ["sync", "rt", "macros", "time"] }
tui = "=0.19.0"
crossterm = "=0.25.0"
clap = { version = "=4.6.7", features = ["derive"] }
serde = { version = "=1.0.229", features = ["derive"] }
serde_json = "=1.0.154"
chrono = { version = "0.4", features = ["serde"] }
hyper = { version = "=0.14.32", features = ["client", "http1", "tcp"] }
hyper-tls = "=0.5.0"
tracing = "=0.1.44"
