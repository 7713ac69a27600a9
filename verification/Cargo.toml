[package]
name = "oneagentgraph"
version = "0.1.0"
edition = "2021"
publish = false

[dependencies]
clap = { version = "=4.6.7", features = ["derive"] }
onejudge = { version = "=0.22.2", features = ["cli"] }
oneharness-core = "=0.29.1"
serde = { version = "=1.0.229", features = ["derive"] }
serde_json = { version = "=1.0.154", features = ["preserve_order"] }
serde_norway = "=0.9.42"
thiserror = "=2.0.21"
toml_edit = "=0.25.17"

[dev-dependencies]
tempfile = "=3.27.0"
