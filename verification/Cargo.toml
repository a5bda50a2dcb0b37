[package]
name = "tilemasker"
version = "0.1.0"
edition = "2021"
publish = false

[dependencies]
actix-web = "4"
actix-web-prom = "*"
anyhow = "1"
bloomfilter = "*"
clap = { version = "4", features = ["derive", "env"] }
image = { version = "0.25", default-features = false, features = ["png"] }
serde = { version = "1", features = ["derive"] }
tracing = "0.1"
tracing-subscriber = "0.3"
ureq = "2"
url = "2"
