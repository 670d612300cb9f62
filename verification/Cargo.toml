[package]
name = "router"
version = "0.1.0"
edition = "2021"
publish = false

[dependencies]
tokio = { version = "1", features = ["rt", "rt-multi-thread", "net", "sync", "time", "macros"] }
tokio-util = { version = "0.7", features = ["codec", "net", "rt"] }
futures = "0.3"
rand = "*"
nix = { version = "*", features = ["net"] }
dhcproto = "*"
