[package]
name = "editor"
version = "0.1.0"
edition = "2021"
publish = false

[dependencies]
tree-sitter = "=0.27.0"
tree-sitter-rust = "=0.24.2"
tree-sitter-javascript = "=0.25.0"
unicode-width = "=0.2.2"
lsp-types = "=0.97.0"
serde = { version = "=1.0.229", features = ["derive"] }
serde_json = "*"
toml = "=1.1.6"
