[package]
name = "jj_status"
version = "0.1.0"
edition = "2021"
publish = false

[dependencies]
clap = { version = "4", features = ["derive"] }
futures = "0.3"
itertools = "0.14"
jj-lib = { version = "0.36", default-features = false }
pollster = "0.4"
tracing = "0.1"
