[package]
name = "live_config"
version = "0.1.0"
edition = "2021"
publish = false

[dependencies]
serde_json = "1"
toml_edit = "0.22"
notify-debouncer-mini = "0.4"
rusqlite = "0.31"
futures = "0.3"
log = "0.4"
