[package]
name = "dispatch_core"
version = "0.1.0"
edition = "2021"
publish = false

[dependencies]
mimalloc = "=0.1.52"
sailfish = "=0.11.8"
xitca-http = "=0.8.2"
xitca-server = "=0.6.1"
xitca-service = "=0.3.0"
