[package]
name = "lease_responder"
version = "0.1.0"
edition = "2021"
publish = false

[dependencies]
tokio = { version = "*", features = ["net", "time", "sync", "rt-multi-thread", "macros"] }
if-addrs = "*"
colored = "*"
indicatif = "*"
rpassword = "*"
chrono = "*"

[dev-dependencies]
dhcproto = "*"
