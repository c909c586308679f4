[package]
name = "commit_picker"
version = "0.1.0"
edition = "2021"
publish = false

[dependencies]
crossterm = "0.28"
git2 = { version = "0.19", default-features = false }
