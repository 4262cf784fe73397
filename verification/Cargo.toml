[package]
name = "cluster_core"
version = "0.1.0"
edition = "2021"
publish = false

[dependencies]
prometheus-parse = "=0.2.5"
url = "*"
