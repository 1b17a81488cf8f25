[package]
name = "flint_nfs"
version = "0.1.0"
edition = "2021"
publish = false

[dependencies]
bytes = "1"
dashmap = "6"
hmac = "0.12"
libc = "0.2"
rand = "0.8"
sha2 = "0.10"
tokio = { version = "1", features = ["io-util", "macros", "net", "rt", "rt-multi-thread", "sync", "time"] }
tracing = "0.1"
