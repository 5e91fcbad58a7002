[package]
name = "ccql"
version = "0.1.0"
edition = "2021"
publish = false

[dependencies]
serde_json = "=1.0.154"
serde = { version = "=1.0.229", features = ["derive"] }
gluesql = { version = "=0.16.3", default-features = false }
gluesql-json-storage = "=0.16.3"
bigdecimal = "=0.4.5"
async-trait = "=0.1.92"
futures = "=0.3.34"
tokio = { version = "=1.54.1", features = ["fs", "io-util", "macros", "rt-multi-thread"] }
clap = { version = "=4.6.7", features = ["derive", "env"] }
chrono = "=0.4.45"
comfy-table = "=7.2.2"
dirs = "=7.0.0"
regex = "=1.13.1"
strsim = "=0.11.1"
colored = "=3.1.1"
walkdir = "=2.5.0"
tracing = "=0.1.44"
tracing-subscriber = { version = "=0.3.23", features = ["env-filter"] }
thiserror = "=1.0.69"
anyhow = "=1.0.104"
rusqlite = { version = "=0.41.0", features = ["bundled", "functions"] }
git2 = { version = "=0.21.0", default-features = false }
