[package]
name = "aparte"
version = "0.1.0"
edition = "2021"
publish = false

[dependencies]
chrono = "0.4"
futures = "0.1"
shell-words = "1"
tokio-xmpp = "1.0"
uuid = { version = "0.7", features = ["v4"] }
xmpp-parsers = "0.15"
