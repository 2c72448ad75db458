[package]
name = "technoafandi"
version = "0.1.0"
edition = "2021"
publish = false

[dependencies]
quick-xml = "=0.37.5"
sha1 = "=0.10.7"
sha2 = "=0.10.9"
zip = { version = "=9.2.2", default-features = false, features = ["deflate"] }
serde = { version = "1", features = ["derive"] }
serde_json = "1"
reqwest = { version = "=0.12.28", default-features = false, features = ["rustls-tls"] }
tokio = { version = "=1.54.1", features = ["full"] }
notify = "=8.2.1"
tempfile = "=3.27.0"
open = "=5.4.5"
