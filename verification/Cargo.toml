[package]
name = "kiss_xmpp"
version = "0.1.0"
edition = "2021"
publish = false

[dependencies]
anyhow = "*"
die = "*"
dirs = "*"
env_logger = "*"
futures = "*"
log = "*"
minidom = "*"
serde = { version = "*", features = ["derive"] }
tokio = { version = "*", features = ["full"] }
tokio-xmpp = "*"
toml = "*"
xmpp-parsers = "*"
xso = "*"
