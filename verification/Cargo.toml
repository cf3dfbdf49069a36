[package]
name = "saili"
version = "0.1.0"
edition = "2021"
publish = false

[dependencies]
base64 = "0.22"
snow = "*"
prost = "0.13"
thiserror = "2"
hidapi = "2"
clap = { version = "4", features = ["derive", "env"] }
crossterm = "0.28"
ratatui = "0.29"
