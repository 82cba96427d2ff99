[package]
name = "topo"
version = "0.1.0"
edition = "2021"
publish = false

[dependencies]
fnv = "1"
illicit = "1"
parking_lot = "0.12"
hash_hasher = "2"
downcast-rs = "1"
topo-macro = "*"
