[package]
name = "wp2l2d"
version = "0.1.0"
edition = "2021"
publish = false

[dependencies]
rss = "*"
quick-xml = "*"
chrono = "*"
actix-web = { version = "*", default-features = false, features = ["macros"] }
awc = { version = "*", default-features = false }
env_logger = "*"
envy = "*"
serde = "*"
serde_derive = "*"
