[package]
name = "plugin_host"
version = "0.1.0"
edition = "2021"
publish = false

[dependencies]
serde_json = "=1.0.151"
uuid = { version = "=1.27.0", features = ["v4"] }
rand = "=0.8.8"
serde = { version = "=1.0.229", features = ["derive"] }
toml = "=1.1.7"
serde_yaml = "=0.9.34"
tokio = { version = "=1.53.2", features = ["full"] }
rmcp = { version = "=3.5.1", features = ["client", "transport-child-process"] }

[dev-dependencies]
