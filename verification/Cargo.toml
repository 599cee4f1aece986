[package]
name = "cargo-mercury"
version = "0.1.0"
edition = "2021"
publish = false

[dependencies]
syn = { version = "2", features = ["full", "extra-traits", "parsing", "printing"] }
quote = "1"
proc-macro2 = { version = "1", features = ["span-locations"] }
regex = "1"
walkdir = "2"
thiserror = "2"
anyhow = "1"
clap = { version = "4", features = ["derive"] }
colored = "2"
