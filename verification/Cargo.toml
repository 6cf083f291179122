[package]
name = "remote_files"
version = "0.1.0"
edition = "2021"
publish = false

[dependencies]
anyhow = "1"
async-channel = "2"
async-io = "2"
dirs = "6"
futures = "0.3"
log = "0.4"
pathfinder_geometry = "0.5"
tokio = { version = "1", features = ["fs", "io-util", "rt"] }
uuid = { version = "1", features = ["v4"] }
walkdir = "2"
