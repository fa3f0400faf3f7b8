[package]
name = "rustdown"
version = "0.1.0"
edition = "2021"
publish = false

[dependencies]
pulldown-cmark = { version = "*", default-features = false }
termcolor = "*"
clap = { version = "*", features = ["derive"] }
