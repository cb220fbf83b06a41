[package]
name = "future_http"
version = "0.1.0"
edition = "2021"
publish = false

[dependencies]
bytes = "1"
failure = "0.1"
failure_derive = "0.1"
futures = "0.3"
http = "1"
httparse = "1"
