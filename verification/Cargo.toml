[package]
name = "ptouch"
version = "0.1.0"
edition = "2021"
publish = false

[dependencies]
rusb = "*"
lazy_static = "*"
log = "*"
structopt = "*"
thiserror = "*"
