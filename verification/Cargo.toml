[package]
name = "sweeper"
version = "0.1.0"
edition = "2021"
publish = false

[dependencies]
rusqlite = "*"
libbpf-rs = "*"
ctrlc = { version = "*", features = ["termination"] }
