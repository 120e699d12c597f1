[package]
name = "ntex_h2"
version = "4.0.0"
edition = "2021"
publish = false

[dependencies]
log = "0.4"
nanorand = { version = "=0.8.0", default-features = false, features = ["std", "wyrand", "tls"] }
ntex-bytes = "1"
ntex-codec = "1"
ntex-dispatcher = "3"
ntex-error = ">=1, <3"
ntex-http = "1"
ntex-io = "3"
ntex-net = "3"
ntex-service = "4"
ntex-util = "3"
thiserror = "2"
