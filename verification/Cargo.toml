[package]
name = "autojump"
version = "0.3.1"
edition = "2021"
publish = false

[dependencies]
regex = "1"
strsim = "0.11"
atomicwrites = "0.4"
dirs = "5"
clap = { version = "4", features = ["cargo"] }
