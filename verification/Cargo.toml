[package]
name = "skinmanager"
version = "0.1.0"
edition = "2021"
publish = false

[dependencies]
clap = { version = "4", features = ["derive"] }
dialoguer = "0.11"
fltk = "1"
indicatif = "0.17"
json = "0.12"
open = "5"
proton-finder = "*"
serde = { version = "1", features = ["derive"] }
serde_json = "1"
zip = "0.6"
zip-extensions = "0.6"
