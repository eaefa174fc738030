[package]
name = "editor_core"
version = "0.1.0"
edition = "2021"
publish = false

[dependencies]
unicode-segmentation = "1"
unicode-width = "*"
crossterm = "*"
arboard = "*"
lsp-types = "*"
serde = { version = "1", features = ["derive"] }
serde_json = "1"
percent-encoding = "2"
tree-sitter = "*"
tree-sitter-rust = "*"
