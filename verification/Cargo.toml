[package]
name = "deskutils"
version = "0.1.0"
edition = "2021"
publish = false

[dependencies]
anyhow = "1"
clap = { version = "4", features = ["derive"] }
fastrand = "2"
futures-util = "0.3"
memchr = "2"
rand = "0.8"
serde_json = "1"
tokio = { version = "1", features = ["macros", "rt"] }
urlencoding = "2"
walkdir = "2"
which = "*"
zbus = "5"
