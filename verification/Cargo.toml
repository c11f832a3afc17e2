[package]
name = "ts2artel"
version = "0.1.0"
edition = "2021"
publish = false

[dependencies]
itertools = "*"
tree-sitter = "*"
tree-sitter-c2rust = "*"
tree-sitter-typescript = "*"
wasm-bindgen = "*"
