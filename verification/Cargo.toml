[package]
name = "fmq"
version = "0.1.0"
edition = "2021"
publish = false

[dependencies]
clap = { version = "=4.6.7", features = ["derive"] }
jaq-core = "=1.5.1"
jaq-interpret = "=1.5.0"
jaq-parse = "=1.0.3"
jaq-std = "=1.6.0"
jaq-syn = "=1.6.0"
serde_json = "=1.0.154"
serde_yml = "=0.0.13"
