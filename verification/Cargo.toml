[package]
name = "task_manager"
version = "0.1.0"
edition = "2021"
publish = false

[dependencies]
rusqlite = { version = "*", features = ["bundled"] }
chrono = "*"
dialoguer = "*"
colored = "*"
tabled = "*"
