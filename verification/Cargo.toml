[package]
name = "mcp_filesystem"
version = "0.1.0"
edition = "2021"
publish = false

[dependencies]
ast-grep-core = "*"
ast-grep-language = "*"
async-trait = "*"
base64 = "*"
chrono = "*"
clap = { version = "*", features = ["derive", "env"] }
dirs = "*"
futures = "*"
glob-match = "*"
globset = "*"
grep = "*"
ignore = "*"
infer = "*"
rayon = "*"
rust-mcp-sdk = "*"
serde = { version = "*", features = ["derive"] }
serde_json = "*"
sha2 = "*"
thiserror = "*"
tokio = { version = "*", features = ["full"] }

[dev-dependencies]
tempfile = "*"
