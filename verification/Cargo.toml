[package]
name = "neqo-client"
version = "0.7.1"
edition = "2021"
publish = false

[dependencies]
clap = { version = "4.4", features = ["derive"] }
futures = "0.3"
hex = "0.4"
qlog = "0.12"
tokio = { version = "1", features = ["net", "time", "macros", "rt", "rt-multi-thread"] }
url = "2.5"
