[package]
name = "powerline"
version = "0.2.0"
edition = "2021"
publish = false

[dependencies]
clap = "2"
dirs = "5"
git2 = { version = "0.19", default-features = false }
