[package]
name = "rs_build"
version = "0.1.0"
edition = "2021"
publish = false

[dependencies]
avro = "*"
chrono = "0.4"
iron = "*"
mustache = "*"
router = "*"
rusqlite = { version = "*", features = ["bundled"] }
serde = { version = "1", features = ["derive"] }
serde_json = "1"
toml = "*"
urlencoded = "*"
