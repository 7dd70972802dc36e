[package]
name = "offer_subscriptions"
version = "0.1.0"
edition = "2021"
publish = false

[dependencies]
dashmap = "*"
tokio = { version = "*", default-features = false, features = ["sync"] }
