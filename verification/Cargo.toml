[package]
name = "sndstr"
version = "0.1.0"
edition = "2021"
publish = false

[dependencies]
nostr = { version = "=0.45.5", features = ["os-rng"] }
salvo = { version = "*", features = ["websocket", "rustls"] }
tokio = { version = "*", features = ["macros", "rt-multi-thread"] }
dotenvy = "*"
tracing = "*"
tracing-subscriber = "*"
