[package]
name = "relation_core"
version = "0.1.0"
edition = "2021"
publish = false

[dependencies]
inari = "*"
rug = "1"
