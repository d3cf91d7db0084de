[package]
name = "hiq"
version = "0.1.0"
edition = "2021"
publish = false

[dependencies]
console = "*"
indicatif = "*"
num-complex = "*"
serde = { version = "*", features = ["derive"] }
serde_json = "*"
