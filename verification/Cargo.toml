[package]
name = "merge_executor"
version = "0.1.0"
edition = "2021"
publish = false

[dependencies]
anyhow = "1"
async-trait = "0.1"
fail = "0.5"
itertools = "0.10"
serde_json = "1"
tantivy = "0.19"
tokio = { version = "1", features = ["rt", "rt-multi-thread", "sync", "macros"] }
tracing = "0.1"
