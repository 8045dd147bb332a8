[package]
name = "notes_core"
version = "0.1.0"
edition = "2021"
publish = false

[dependencies]
chrono = "0.4"
notify = "7"
serde = { version = "1", features = ["derive"] }
serde_json = "1"
slug = "0.1"
typst-syntax = "*"
