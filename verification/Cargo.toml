[package]
name = "rgrep"
version = "0.1.0"
edition = "2021"
publish = false

[dependencies]
anyhow = "1"
clap = { version = "4", features = ["derive"] }
colored = "2"
glob = "0.3"
itertools = "*"
rayon = "1"
regex = "1"
thiserror = "1"
