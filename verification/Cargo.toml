[package]
name = "btce_trollbox"
version = "0.1.0"
edition = "2021"
publish = false

[dependencies]
rustc-serialize = "0.3"
regex = "1"
term = "*"
hyper = "0.10"
websocket = { version = "*", default-features = false, features = ["sync"] }
docopt = "*"
serde = { version = "1", features = ["derive"] }
