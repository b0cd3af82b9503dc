[package]
name = "rust_debug"
version = "0.1.0"
edition = "2021"
publish = false

[dependencies]
gimli = "0.23"
object = "0.23"
memmap = "0.7"
anyhow = "1"
log = "0.4"
simplelog = "0.9"
serde = { version = "1", features = ["derive"] }
serde_json = "1"
debugserver-types = "0.5"
crossbeam-channel = "0.5"
rustyline = "7"
structopt = "0.3"
capstone = "0.7"
probe-rs = "0.10"
