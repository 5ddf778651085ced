[package]
name = "revisionstore"
version = "0.1.0"
edition = "2021"
publish = false

[dependencies]
anyhow = "1"
crossbeam = "0.8"
async-trait = "0.1"
tracing = "0.1"
