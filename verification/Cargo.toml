[package]
name = "ldap3_proto"
version = "0.1.0"
edition = "2021"
publish = false

[dependencies]
bytes = "=1.12.1"
lber = "=0.3.0"
tokio-util = { version = "=0.7.20", features = ["codec"] }
tracing = "=0.1.44"
uuid = "=1.29.0"
