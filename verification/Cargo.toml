[package]
name = "orderbook"
version = "0.1.0"
edition = "2021"
publish = false

[dependencies]
fastwebsockets = { version = "*", features = ["upgrade"] }
http = "1"
http-body-util = "*"
hyper = { version = "1", features = ["client", "http1"] }
hyper-util = { version = "*", features = ["tokio"] }
reqwest = { version = "0.12", default-features = false, features = ["json", "rustls-tls"] }
serde = { version = "1", features = ["derive"] }
slab = "0.4"
tokio = { version = "1", features = ["macros", "net", "rt", "sync", "time"] }
tokio-rustls = { version = "*", default-features = false, features = ["logging", "ring", "tls12"] }
url = "2"
webpki-roots = "*"
