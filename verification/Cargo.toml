[package]
name = "noita_saves"
version = "0.1.0"
edition = "2021"
publish = false

[dependencies]
bytesize = "*"
chrono = "0.4"
console = "*"
lnks = "*"
open = "*"
regex = "1"
serde = { version = "1", features = ["derive"] }
serde_json = "1"
trim-margin = "*"
walkdir = "2"
