[package]
name = "myshell"
version = "0.1.0"
edition = "2021"
publish = false

[dependencies]
unicode-width = "0.1"
nix = "0.26"
