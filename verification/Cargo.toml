[package]
name = "mercury_cortex_core"
version = "0.1.0"
edition = "2021"
publish = false

[dependencies]
surrealdb-types = "3"
sha2 = "0.10"
serde = { version = "1", features = ["derive"] }
serde_json = "1"
tokio = { version = "1", features = ["full"] }
anyhow = "1"
thiserror = "2"
tracing = "0.1"
dirs = "*"
fs2 = "0.4"
walkdir = "2"
async-trait = "0.1"
