[package]
name = "clash_tui"
version = "0.1.0"
edition = "2021"
publish = false

[dependencies]
clap = { version = "4", features = ["derive"] }
crossterm = "0.25"
reqwest = { version = "0.11", default-features = false, features = ["blocking", "json"] }
serde = { version = "1", features = ["derive"] }
tui = { version = "0.19", default-features = false, features = ["crossterm"] }
