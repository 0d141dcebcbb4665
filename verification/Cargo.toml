[package]
name = "mojom_lsp"
version = "0.1.0"
edition = "2021"
publish = false

[dependencies]
serde = { version = "=1.0.229", features = ["derive"] }
serde_json = "=1.0.154"
lsp-types = "=0.95.1"
log = "=0.4.34"
env_logger = "=0.11.11"
structopt = "=0.3.26"
glob = "=0.3.4"
anyhow = "=1.0.104"
