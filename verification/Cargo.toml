[package]
name = "reqcore"
version = "0.1.0"
edition = "2021"
publish = false

[dependencies]
url = "2"
cookie = { version = "0.18", features = ["percent-encode"] }
webpki = "0.22"
dns-lookup = "2"
rustls = "0.21"
webpki-roots = "0.25"

[dev-dependencies]
chunked_transfer = "1"
