[package]
name = "codex_napi"
version = "0.1.0"
edition = "2021"
publish = false

[dependencies]
anyhow = "1"
base64 = "0.22"
codex-protocol = "0.63.0"
napi = { version = "3", default-features = false, features = ["napi4", "async"] }
napi-derive = "3"
reqwest = { version = "0.12", default-features = false }
serde = { version = "1", features = ["derive"] }
serde_json = "1"
toml = "0.8"
