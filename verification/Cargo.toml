[package]
name = "folder"
version = "0.10.0"
edition = "2021"
publish = false

[dependencies]
futures = "0.3"
walkdir = "2"
