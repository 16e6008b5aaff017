[package]
name = "board_games"
version = "0.1.0"
edition = "2021"
publish = false

[dependencies]
rand = "0.8"
serenity = { version = "0.10", features = ["collector"] }
tokio = { version = "1", features = ["macros", "rt-multi-thread", "signal"] }
rusqlite = { version = "0.25", features = ["bundled"] }
