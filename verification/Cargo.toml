[package]
name = "melatonin_bot"
version = "0.1.0"
edition = "2021"
publish = false

[dependencies]
mobot = "*"
hyper = { version = "0.14", features = ["full"] }
routerify = "3"
tokio = { version = "1", features = ["full"] }
anyhow = "1"
log = "0.4"
