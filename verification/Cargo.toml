[package]
name = "edinet_xbrl"
version = "0.1.0"
edition = "2021"
publish = false

[dependencies]
quick-xml = "0.31"
serde = { version = "1", features = ["derive"] }
serde_json = "1"
tokio = { version = "1", features = ["macros", "rt-multi-thread", "fs", "time"] }
reqwest = { version = "0.11", features = ["json"] }
chrono = "0.4"
dotenv = "0.15"
rusqlite = { version = "0.31", features = ["bundled"] }
zip = "0.6"
