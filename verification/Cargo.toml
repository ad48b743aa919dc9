[package]
name = "taill"
version = "0.1.0"
edition = "2021"
publish = false

[dependencies]
notify = "*"
clap = "*"
bat = { version = "*", default-features = false, features = ["regex-fancy"] }

[dev-dependencies]
glob = "*"
