[package]
name = "reify_scan"
version = "0.1.0"
edition = "2021"
publish = false

[dependencies]
zip = "*"
tree-sitter = "*"
tree-sitter-clojure = "*"
glob = "*"
rayon = "*"
