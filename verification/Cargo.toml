[package]
name = "pong"
version = "0.1.0"
edition = "2021"
publish = false

[dependencies]
bevy = { version = "=0.1.3", default-features = false }
# bevy 0.1.3 is written against this pre-release of notify and does not
# compile with the later 5.x releases that its own requirement admits.
notify = "=5.0.0-pre.2"
rand = "=0.7.3"
