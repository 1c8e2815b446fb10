[package]
name = "viktor"
version = "0.1.0"
edition = "2021"
publish = false

[dependencies]
clap = "2"
hyper = "0.10"
lazy_static = "1"
rustc-serialize = "0.3"
select = "*"
serde = { version = "1", features = ["derive"] }
serde_derive = "1"
serde_json = "1"
termcolor = "1"
