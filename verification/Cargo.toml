[package]
name = "raid_core"
version = "0.1.0"
edition = "2021"
publish = false

[dependencies]
ehttp = "=0.7.1"
