[package]
name = "annotate-snippets"
version = "0.1.0"
edition = "2021"
publish = false

[dependencies]
anstyle = "1"
memchr = "2"
unicode-width = "0.2"
