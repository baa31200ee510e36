[package]
name = "tiez_slim"
version = "0.1.0"
edition = "2021"
publish = false

[dependencies]
regex = "=1.13.1"
globset = "=0.4.21"
shlex = "=1.3.0"
rust-i18n = "=3.1.5"
serde = { version = "=1.0.229", features = ["derive"] }
serde_json = "=1.0.154"
uuid = { version = "=1.29.0", features = ["v4"] }
dirs = "=7.0.0"
thiserror = "=2.0.21"
crossbeam-channel = "=0.5.17"
libc = "=0.2.191"
x11rb = { version = "=0.14.0", features = ["xfixes"] }
open = "=5.4.5"
