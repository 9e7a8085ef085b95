[package]
name = "glsl_nav"
version = "0.1.0"
edition = "2021"
publish = false

[dependencies]
url = "*"
tree-sitter = "*"
tree-sitter-glsl = "*"
