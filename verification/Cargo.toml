[package]
name = "treegraph"
version = "0.1.0"
edition = "2021"
publish = false

[dependencies]
tree-sitter = "*"
tree-sitter-typescript = "*"
convert_case = "*"
apache_age = "*"
tokio = { version = "*", features = ["macros", "rt-multi-thread"] }
tokio-postgres = "*"
serde = { version = "*", features = ["derive"] }
anyhow = "*"
