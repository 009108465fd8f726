[package]
name = "lore_auth_adapters"
version = "0.1.0"
edition = "2021"
publish = false

[dependencies]
async-trait = "0.1"
authz-core = "0.1"
base64 = "0.22"
hex = "0.4"
ipnet = "2"
jsonwebtoken = { version = "10", features = ["rust_crypto"] }
openidconnect = "4"
rsa = "0.9"
serde = { version = "1", features = ["derive"] }
serde_json = "1"
serde_yaml_ng = "0.10"
sha2 = "0.10"
thiserror = "2"
tokio-rusqlite = { version = "0.7", features = ["bundled"] }
url = "2"
uuid = { version = "1", features = ["v4"] }
