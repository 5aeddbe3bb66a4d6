[package]
name = "deet"
version = "0.1.0"
edition = "2021"
publish = false

[dependencies]
nix = { version = "*", features = ["ptrace", "signal", "process"] }
rustyline = "*"
clap = { version = "4", features = ["derive"] }
http = "1"
log = "0.4"
pretty_env_logger = "*"
rand = "0.8"
tokio = { version = "1", features = ["rt-multi-thread", "net", "io-util", "macros", "time"] }
crossbeam-channel = "0.5"
