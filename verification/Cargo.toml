[package]
name = "hash_reconcile"
version = "0.1.0"
edition = "2021"
publish = false

[dependencies]
csv = "1"
indicatif = "0.17"
rusqlite = "*"
