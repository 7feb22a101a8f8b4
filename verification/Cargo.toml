[package]
name = "token_keyring"
version = "0.1.0"
edition = "2021"
publish = false

[dependencies]
argon2 = "=0.5.3"
axum = "=0.8.9"
chrono = "=0.4.45"
dotenvy = "=0.15.7"
get_if_addrs = "=0.5.3"
hex = "=0.4.3"
jsonwebtoken = "=9.3.1"
rand = "=0.9.5"
reqwest = { version = "=0.12.28", default-features = false }
serde = { version = "=1.0.229", features = ["derive"] }
serde_json = "=1.0.154"
tokio = { version = "=1.54.1", features = ["fs", "macros", "net", "rt-multi-thread"] }
toml = "=0.8.23"
