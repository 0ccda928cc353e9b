[package]
name = "acadctl_plugin"
version = "0.1.0"
edition = "2021"
publish = false

[dependencies]
bytes = "=1.12.1"
camino = "=1.2.6"
cxx = "*"
futures-util = "*"
nanoid = "=0.4.0"
tokio = { version = "=1.54.1", features = ["macros", "rt-multi-thread", "sync", "time"] }
tonic = { version = "*", default-features = false }
unicode-width = "=0.2.3"
