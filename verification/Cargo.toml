[package]
name = "tsc"
version = "0.1.0"
edition = "2021"
publish = false

[dependencies]
anyhow = "1"
dashmap = "=5.5.3"
deno_ast = { version = "=0.34.2", default-features = false }
log = "0.4"
regex = "=1.13.1"
serde = { version = "=1.0.219", features = ["derive"] }
serde_json = "1"
serde_repr = "0.1"
text-size = "=1.1.1"
tokio = { version = "1", features = ["rt", "sync", "macros"] }
tokio-util = "0.7"
tower-lsp = { version = "=0.20.0", features = ["proposed"] }
url = "2"
