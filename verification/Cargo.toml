[package]
name = "mdbook_incremental_preview"
version = "0.1.0"
edition = "2021"
publish = false

[dependencies]
anyhow = "*"
clap = { version = "*", features = ["derive"] }
futures-util = "*"
ignore = "=0.4.33"
mdbook = "=0.4.52"
notify = "6"
notify-debouncer-mini = "0.4"
opener = "*"
pathdiff = "=0.2.3"
serde_json = "*"
tempfile = "*"
tokio = { version = "1", features = ["full"] }
tower-lsp = "*"
tracing = "*"
tracing-subscriber = { version = "*", features = ["env-filter"] }
warp = "=0.3.7"
