[package]
name = "cgir"
version = "0.1.0"
edition = "2021"
publish = false

[dependencies]
chess = "3"
vampirc-uci = { version = "0.11", features = ["chess"] }
itertools = "0.10"
log = "0.4"
druid = { version = "0.7", features = ["svg", "im"] }
