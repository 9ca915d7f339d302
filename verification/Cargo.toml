[package]
name = "ctxpack"
version = "0.1.0"
edition = "2021"
publish = false

[dependencies]
blake3 = "1"
uuid = { version = "1", features = ["v5"] }
serde = { version = "1", features = ["derive"] }
serde_json = "1"
ignore = "0.4"
rusqlite = { version = "*", features = ["bundled"] }
thiserror = "*"
anyhow = "1"
clap = { version = "4", features = ["derive"] }
tree-sitter = "*"
tree-sitter-typescript = "*"
tree-sitter-python = "*"
tree-sitter-rust = "*"
tree-sitter-go = "*"
tree-sitter-java = "*"
tree-sitter-kotlin-ng = "*"
