[package]
name = "attohttpc"
version = "0.1.0"
edition = "2021"
publish = false

[dependencies]
http = "*"
libflate = "*"
serde_json = "*"
native-tls = "*"
url = "*"
