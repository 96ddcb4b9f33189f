[package]
name = "neqo_glue"
version = "0.1.0"
edition = "2021"
publish = false

[dependencies]
base64 = "0.22"
http = "1"
http-body-util = "0.1"
hyper = "1"
hyper-util = { version = "0.1", features = ["client-legacy", "http1", "tokio"] }
libc = "0.2"
log = "0.4"
mcrx-core = "0.3"
socket2 = "0.6"
thin-vec = "0.2"
tokio = { version = "1", features = ["full"] }
uuid = { version = "1", features = ["v4"] }
zlib-rs = "0.6"
