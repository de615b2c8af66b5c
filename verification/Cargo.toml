[package]
name = "raft_election"
version = "0.1.0"
edition = "2021"
publish = false

[dependencies]
actix = { version = "0.8", default-features = false }
log = "0.4"
