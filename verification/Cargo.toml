[package]
name = "shortcut_sync"
version = "0.1.0"
edition = "2021"
publish = false

[dependencies]
steam_shortcuts_util = "*"
futures = "*"
reqwest = { version = "*", default-features = false }
serde = { version = "*", features = ["derive"] }
serde_json = "*"
steamgriddb_api = "*"
tokio = { version = "*", features = ["rt-multi-thread", "macros"] }
