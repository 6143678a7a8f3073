[package]
name = "geode_cli_installer"
version = "0.1.0"
edition = "2021"
publish = false

[dependencies]
colored = "*"
homedir = "*"
indicatif = "*"
reqwest = { version = "*", features = ["blocking"] }
serde_json = "1"
zip = { version = "*", default-features = false, features = ["deflate"] }
