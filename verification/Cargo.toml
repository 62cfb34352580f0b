[package]
name = "watchr"
version = "0.1.0"
edition = "2021"
publish = false

[dependencies]
clap = { version = "4", features = ["derive"] }
ctrlc = "3"
notify-debouncer-full = "*"
serde = { version = "1", features = ["derive"] }
thiserror = "*"
toml = "*"
tracing = "0.1"

[dev-dependencies]
tempfile = "3"
