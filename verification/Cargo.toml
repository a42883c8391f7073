[package]
name = "async_broadcast"
version = "0.3.4"
edition = "2021"
publish = false

[dependencies]
event-listener = "2.5"
futures-core = "0.3"
