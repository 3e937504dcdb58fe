[package]
name = "cloudflare_cname_switcher"
version = "0.1.0"
edition = "2021"
publish = false

[dependencies]
serde_json = "*"
yaml-rust2 = "*"
chrono = "*"
rustdns = "*"
hyper = { version = "*", features = ["http1", "client", "server"] }
hyper-util = { version = "*", features = ["tokio"] }
http-body-util = "*"
bytes = "*"
tokio = { version = "*", features = ["full"] }
tokio-rustls = "*"
rustls-pki-types = "*"
webpki-roots = "*"
prometheus = "*"
log = "*"
env_logger = "*"
notify = "*"
