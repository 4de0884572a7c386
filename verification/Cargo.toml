[package]
name = "never_jscore"
version = "0.1.0"
edition = "2021"
publish = false

[dependencies]
anyhow = "1"
deno_core = "*"
serde_json = "1"
