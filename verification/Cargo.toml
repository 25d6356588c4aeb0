[package]
name = "hudsucker"
version = "0.1.0"
edition = "2021"
publish = false

[dependencies]
futures-util = { version = "=0.3.34", default-features = false, features = ["sink", "std"] }
http = "=1.5.0"
hyper = { version = "=1.12.0", features = ["client", "server", "http1", "http2"] }
hyper-util = { version = "=0.1.21", features = ["client-legacy", "server-auto", "server-graceful", "http1", "http2", "tokio"] }
tokio = { version = "=1.54.1", features = ["macros", "net", "rt", "io-util", "sync"] }
tokio-graceful = "=0.2.2"
tokio-tungstenite = "=0.30.0"
tracing = "=0.1.44"
