[package]
name = "cargo_dokita"
version = "0.1.0"
edition = "2021"
publish = false

[dependencies]
cargo_metadata = "*"
clap = { version = "4", features = ["cargo"] }
rayon = "1"
regex = "1"
reqwest = { version = "*", features = ["blocking", "json"] }
serde = { version = "1", features = ["derive"] }
serde_json = "1"
termcolor = "1"
toml = "*"
walkdir = "2"
