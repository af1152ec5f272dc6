[package]
name = "package_review"
version = "0.1.0"
edition = "2021"
publish = false

[dependencies]
anyhow = "=1.0.104"
dirs = "=7.0.0"
git2 = "=0.21.0"
ignore = "=0.4.33"
toml = "=0.8.23"
typst-syntax = "=0.15.1"
