[package]
name = "art_ai_marketplace"
version = "0.1.0"
edition = "2021"
publish = false

[dependencies]
anchor-lang = "=0.28.0"
anchor-spl = { version = "=0.28.0", default-features = false, features = ["token"] }
mpl-token-metadata = "=1.13.2"
spl-memo = "=4.0.0"
spl-token = "=4.0.0"
