[package]
name = "lsp_froggy"
version = "0.1.0"
edition = "2021"
publish = false

[dependencies]
tower-lsp = "*"
tokio = { version = "*", features = ["full"] }
tree-sitter = "*"
tree-sitter-froggy = "*"
