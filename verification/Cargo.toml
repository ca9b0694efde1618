[package]
name = "netruko"
version = "0.1.0"
edition = "2021"

[dependencies]
russh = "0.38"
russh-keys = "0.38"
async-trait = "0.1"
