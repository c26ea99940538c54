[package]
name = "triversi"
version = "0.1.0"
edition = "2021"
publish = false

[dependencies]
anyhow = "1"
clap = { version = "4", features = ["derive"] }
derive-new = "0.5"
getset = "0.1"
termion = "2"
thiserror = "1"
tui = { version = "0.19", default-features = false, features = ["termion"] }
unicode-width = "0.1"
