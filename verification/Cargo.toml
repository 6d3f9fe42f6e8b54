[package]
name = "oblibeny_parser"
version = "0.1.0"
edition = "2021"
publish = false

[dependencies]
petgraph = "*"
pest = "*"
pest_derive = "*"
clap = { version = "*", features = ["derive"] }
serde = { version = "*", features = ["derive"] }
serde_json = "*"
anyhow = "*"
thiserror = "*"
