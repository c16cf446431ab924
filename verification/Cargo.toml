[package]
name = "ruuvitag_listener"
version = "0.1.0"
edition = "2021"
publish = false

[dependencies]
clap = { version = "4", features = ["derive"] }
libc = "0.2"
ruuvi-decoders = "*"
thiserror = "*"
tokio = { version = "1", features = ["rt", "macros", "sync", "net"] }
