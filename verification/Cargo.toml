[package]
name = "weld"
version = "0.1.0"
edition = "2021"
publish = false

[dependencies]
id_tree = "=1.8.0"
cassowary = "=0.3.0"
yoga = "=0.5.0"
rand = "*"
