[package]
name = "cdb_transformer"
version = "0.1.0"
edition = "2021"
publish = false

[dependencies]
regex = "1"
arc-swap = "1"
clap = { version = "4", features = ["derive"] }
wild = "2"
serde = { version = "1", features = ["derive"] }
sqlite = "*"
phf = { version = "0.11", features = ["macros"] }
bitflags = "2"
