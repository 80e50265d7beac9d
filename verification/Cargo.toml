[package]
name = "apd"
version = "0.5.0"
edition = "2021"
publish = false

[dependencies]
ed25519-dalek = "2"
sha2 = "0.10"
serde = { version = "1", features = ["derive"] }
serde_json = "1"
getrandom = "0.2"
tokio = { version = "1", features = ["rt-multi-thread", "net", "io-util", "time", "sync", "signal", "macros", "fs"] }
hyper = { version = "1", features = ["server", "client", "http1"] }
hyper-util = { version = "0.1", features = ["tokio"] }
http-body-util = "0.1"
rustls = { version = "0.23", default-features = false, features = ["ring", "std", "tls12"] }
tokio-rustls = { version = "0.26", default-features = false, features = ["ring", "tls12"] }
rustls-webpki = { version = "0.103", default-features = false, features = ["ring", "std"] }
rustls-pki-types = { version = "1", features = ["std"] }
webpki-roots = "0.26"
opentelemetry = { version = "0.30", features = ["trace", "metrics"] }
opentelemetry_sdk = { version = "0.30", features = ["trace", "metrics"] }
opentelemetry-otlp = { version = "0.30", default-features = false, features = ["trace", "metrics", "http-proto", "reqwest-blocking-client"] }
ureq = { version = "2", default-features = false, features = ["tls", "json"] }

[dev-dependencies]
rcgen = "0.13"
