[package]
name = "yuttari"
version = "0.1.0"
edition = "2021"
publish = false

[dependencies]
x25519-dalek = { version = "=2.0.1", features = ["static_secrets"] }
rand_core = { version = "=0.6.4", features = ["getrandom"] }
rand = "=0.8.8"
chrono = "=0.4.45"
rust-crypto = "=0.2.36"
tokio = { version = "=1.53.2", features = ["rt-multi-thread", "net", "sync", "macros", "io-util"] }
tokio-util = { version = "=0.7.19", features = ["codec"] }
bytes = "=1.12.1"
futures = "=0.3.34"
