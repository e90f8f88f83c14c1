[package]
name = "mdedit"
version = "0.1.0"
edition = "2021"
publish = false

[dependencies]
pulldown-cmark = "*"
pulldown-cmark-escape = "*"
arboard = "*"
