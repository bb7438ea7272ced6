[package]
name = "button_chords"
version = "0.1.0"
edition = "2021"
publish = false

[dependencies]
anyhow = "1"
button-driver = { version = "*", features = ["std"] }
critical-section = { version = "1", features = ["std"] }
esp-idf-svc = "*"
esp-println = "*"
log = "0.4"
