[package]
name = "timetable"
version = "0.1.0"
edition = "2021"
publish = false

[dependencies]
calamine = "=0.22.1"
serde = { version = "=1.0.229", features = ["derive"] }
serde_json = { version = "=1.0.151", features = ["preserve_order"] }
tokio = { version = "=1.53.2", features = ["macros", "rt-multi-thread"] }
warp = "=0.3.7"
