[package]
name = "fast_task"
version = "0.1.0"
edition = "2021"
publish = false

[dependencies]
bson = "2"
jiff = "0.2"
polodb_core = "5"
serde = { version = "1", features = ["derive"] }
anyhow = "1"
dirs = "6"
parking_lot = "0.12"
eframe = { version = "*", default-features = false, features = ["default_fonts", "glow", "x11"] }
egui = "*"
egui_extras = { version = "*", default-features = false, features = ["datepicker"] }
resvg = { version = "*", default-features = false }
tokio = { version = "1", features = ["rt-multi-thread", "net", "macros"] }
axum = "*"
reqwest = { version = "*", default-features = false, features = ["blocking", "json"] }
