[package]
name = "terracotta"
version = "0.1.0"
edition = "2021"
publish = false

[dependencies]
toml = "=1.1.8"
cidr = "=0.3.2"
serde_json = "=1.0.154"
local-ip-address = "=0.6.13"
jni = "=0.21.1"
lazy_static = "=1.5.1"
