[package]
name = "cone"
version = "0.1.0"
edition = "2021"
publish = false

[dependencies]
clap = { version = "*", features = ["cargo"] }
crossterm = "*"
polars = { version = "*", default-features = false, features = ["csv"] }
rustyline = "*"
tabled = "*"
