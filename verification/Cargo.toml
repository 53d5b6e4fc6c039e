[package]
name = "fs_db"
version = "0.1.0"
edition = "2021"
publish = false

[dependencies]
gulkana = "=1.3.3"
rand = "=0.8.8"
