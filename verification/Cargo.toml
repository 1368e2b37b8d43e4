[package]
name = "veloce"
version = "0.1.0"
edition = "2021"
publish = false

[dependencies]
clap = "2"
failure = "0.1"
hyper = "1"
prettytable-rs = "0.10"
reqwest = { version = "0.12", default-features = false, features = ["blocking", "json"] }
rustyline = "1.0"
serde = "1"
serde_derive = "1"
serde_json = "1"
structopt = "0.3"
