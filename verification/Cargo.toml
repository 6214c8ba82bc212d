[package]
name = "conductor"
version = "0.1.0"
edition = "2021"
publish = false

[dependencies]
expand_str = "*"
serde = { version = "*", features = ["derive"] }
serde_yaml = "*"
clap = "2"
ansi_term = "*"
git2 = { version = "*", default-features = false }
subprocess = "*"
crossbeam = "*"
ctrlc = "*"
rs-docker = "*"
log = "*"
simple_logger = "*"
