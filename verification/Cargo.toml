[package]
name = "store_variables"
version = "0.1.0"
edition = "2021"
publish = false

[dependencies]
cairo-felt = "*"
cairo-lang-defs = "*"
cairo-lang-sierra = "*"
cairo-lang-syntax = "*"
cairo-lang-utils = "*"
itertools = "*"
num-traits = "*"
serde = { version = "*", features = ["derive"] }
