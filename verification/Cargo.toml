[package]
name = "emacs_reporter"
version = "0.1.0"
edition = "2021"
publish = false

[dependencies]
anyhow = "1"
bzip2 = "*"
chrono = "0.4"
getrandom = "0.3"
libc = "0.2"
rusqlite = "*"
tokio = { version = "1", features = ["rt-multi-thread", "macros", "time"] }
tracing = "0.1"
tracing-subscriber = "0.3"
ureq = "3"
uuid = { version = "1", features = ["v4", "v5"] }
