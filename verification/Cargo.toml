[package]
name = "gumc"
version = "0.1.0"
edition = "2021"
publish = false

[dependencies]
clap = "4"
hex = "0.4"
logos = "*"
pest = "2"
pest_derive = "2"
revm = "*"
serde = { version = "1", features = ["derive"] }
serde_json = "1"
tiny-keccak = { version = "2", features = ["keccak"] }
