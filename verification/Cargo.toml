[package]
name = "cb_planning"
version = "0.1.0"
edition = "2021"
publish = false

[dependencies]
descartes = "*"
uuid = { version = "*", features = ["v4"] }
kay = "*"
compact = "*"
