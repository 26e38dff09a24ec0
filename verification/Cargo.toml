[package]
name = "schism"
version = "0.1.0"
edition = "2021"
publish = false

[dependencies]
unicode_categories = "*"
line-col = "*"
lalrpop-util = "*"
clap = { version = "*", features = ["derive"] }
