[package]
name = "xtra"
version = "0.6.0"
edition = "2021"
publish = false

[dependencies]
async-trait = "0.1"
catty = "0.1"
event-listener = "2.5"
futures-core = "0.3"
futures-util = "0.3"
tokio = { version = "1", default-features = false, features = ["rt"] }
