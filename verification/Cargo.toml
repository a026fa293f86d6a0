[package]
name = "parkour_api"
version = "0.1.0"
edition = "2021"
publish = false

[dependencies]
chrono = "0.4"
handlebars = "6"
parking_lot = "0.12"
rusqlite = { version = "*", features = ["bundled"] }
serde = { version = "1", features = ["derive"] }
serde_json = "1"
tokio = { version = "1", features = ["full"] }
warp = "0.3"
