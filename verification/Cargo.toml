[package]
name = "syntax_forest"
version = "0.1.0"
edition = "2021"
publish = false

[dependencies]
clap = { version = "=4.6.7", features = ["derive"] }
ignore = "=0.4.33"
lsp-server = "=0.7.9"
lsp-types = "=0.95.1"
rusqlite = "=0.31.0"
serde_json = "=1.0.154"
tracing = "=0.1.44"
tracing-appender = "=0.2.5"
tracing-panic = "=0.1.3"
tracing-subscriber = "=0.3.23"
tree-sitter = "=0.22.6"
tree-sitter-c = "=0.21.0"
