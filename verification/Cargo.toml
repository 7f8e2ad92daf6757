[package]
name = "cargo_merge"
version = "0.1.0"
edition = "2021"
publish = false

[dependencies]
regex = "1"
toml = "0.5"
colored = "2"
log = "0.4"
simple-logging = "2"
structopt = "0.3"
serde = "1"
serde_derive = "1"
