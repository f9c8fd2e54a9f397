[package]
name = "journal_trace"
version = "0.1.0"
edition = "2021"
publish = false

[dependencies]
chrono = "0.4"
regex = "1"
serde = { version = "1", features = ["derive"] }
serde_json = "1"
crossbeam-channel = "0.5"
rayon = "1"
egui = "0.29"
egui_extras = "0.29"
