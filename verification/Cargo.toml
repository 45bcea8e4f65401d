[package]
name = "bambu_client"
version = "0.1.0"
edition = "2021"
publish = false

[dependencies]
memchr = "*"
chrono = "*"
bytes = "*"
tokio = { version = "*", features = ["full"] }
tokio-rustls = "*"
tokio-util = { version = "*", features = ["codec"] }
futures-util = "*"
rumqttc = { version = "*", features = ["use-rustls"] }
