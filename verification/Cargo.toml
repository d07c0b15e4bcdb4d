[package]
name = "nfm"
version = "0.1.0"
edition = "2021"
publish = false

[dependencies]
aes-gcm = "0.10"
sha2 = "0.10"
md-5 = "0.10"
rand = "0.8"
directories = "5"
crossterm = "0.28"
ratatui = "0.29"
syntect = { version = "5", default-features = false, features = ["default-fancy"] }
sysinfo = "0.30"
open = "5"
chrono = "0.4"
clap = { version = "4", features = ["derive"] }
serde = { version = "1", features = ["derive"] }
toml = "0.8"
