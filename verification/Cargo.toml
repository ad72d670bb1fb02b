[package]
name = "anoma"
version = "0.1.0"
edition = "2021"
publish = false

[dependencies]
borsh = "0.9"
thiserror = "1"
