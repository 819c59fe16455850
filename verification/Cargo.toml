[package]
name = "ledger_explorer"
version = "0.1.0"
edition = "2021"
publish = false

[dependencies]
actix-web = "4"
clap = { version = "4", features = ["derive"] }
derive_more = { version = "1", features = ["display", "error"] }
hex = "0.4"
rayon = "1"
regex = "1"
serde = { version = "1", features = ["derive"] }
whoami = "1"
