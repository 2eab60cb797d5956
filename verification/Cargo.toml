[package]
name = "alice"
version = "0.1.0"
edition = "2021"
publish = false

[dependencies]
unicode-segmentation = "*"
clap = { version = "4", features = ["derive"] }
libc = "*"
tracing = "*"
tracing-appender = "*"
tracing-subscriber = "*"
tree-sitter = "*"
tree-sitter-highlight = "*"
tree-sitter-rust = "*"
