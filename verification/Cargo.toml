[package]
name = "taildrop_notifier"
version = "0.1.0"
edition = "2021"
publish = false

[dependencies]
nix = { version = "*", features = ["user", "fs", "process"] }
tokio = { version = "*", features = ["rt-multi-thread", "macros", "sync", "fs"] }
notify = "*"
notify-rust = "*"
tempfile = "*"
clap = "*"
