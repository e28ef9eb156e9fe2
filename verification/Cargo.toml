[package]
name = "diary"
version = "0.1.0"
edition = "2021"
publish = false

[dependencies]
magic-crypt = "3"
chrono = "0.4"
uuid = { version = "1", features = ["v4"] }
clap = "2"
termion = "1.5"
tui = { version = "0.19", default-features = false, features = ["termion"] }
bincode = "1"
serde = { version = "1", features = ["derive"] }
