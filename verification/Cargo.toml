[package]
name = "visage"
version = "0.4.0"
edition = "2021"
publish = false

[dependencies]
anyhow = "1"
clap = { version = "4", features = ["derive"] }
eframe = { version = "0.33", default-features = false, features = ["default_fonts", "glow", "x11"] }
ratatui = "0.29"
thiserror = "2"
tokio = { version = "1", features = ["macros", "rt-multi-thread", "sync", "time"] }
tracing = "0.1"
v4l = "0.14"
zbus = { version = "5", default-features = false, features = ["tokio"] }
