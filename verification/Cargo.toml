[package]
name = "rustit"
version = "0.1.0"
edition = "2021"
publish = false

[dependencies]
git2 = "0.13"
yaml-rust = "0.4"
itertools = "0.10"
clap = "2"
