[package]
name = "vs2008_parser"
version = "0.1.0"
edition = "2021"
publish = false

[dependencies]
anyhow = "1"
clap = { version = "4", features = ["derive"] }
roxmltree = "*"
uuid = "1"
serde_json = "1"
rusqlite = { version = "*", features = ["bundled"] }
